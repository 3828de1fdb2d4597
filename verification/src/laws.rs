//! The core's stated laws, proved against the step semantics: register
//! file behaviour, store/load round trips, jump and branch effects, and
//! the machine-mode return transition.

use crate::cpu::{
    in_uart, reg, sp_load16, sp_load32, sp_load64, sp_load8, sp_store16, sp_store32, sp_store64,
    sp_store8, step_insn, view_wf, wadd, wadds, wr_reg, CpuView,
};
use crate::decoder::{BType, IType, Instruction, JType};
use crate::mem::mem_read;
use vstd::bytes::{
    lemma_auto_spec_u16_to_from_le_bytes, lemma_auto_spec_u32_to_from_le_bytes,
    lemma_auto_spec_u64_to_from_le_bytes,
};
use vstd::prelude::*;

verus! {

/// Writing a register and reading it back returns the written value,
/// and x0 still reads zero after any write.
pub proof fn lemma_reg_write_read(regs: Seq<u64>, i: u8, v: u64)
    requires
        regs.len() == 32,
        regs[0] == 0,
        i < 32,
    ensures
        i != 0 ==> wr_reg(regs, i, v)[i as int] == v,
        wr_reg(regs, i, v)[0] == 0,
{
}

/// A byte load returns the byte just stored at the same address, for
/// any address outside the UART window whose store succeeded.
pub proof fn lemma_store_load_u8(s: CpuView, addr: u64, v: u8)
    requires
        view_wf(s),
        !in_uart(addr),
        sp_store8(s, addr, v) is Some,
    ensures
        sp_load8((CpuView { mem: sp_store8(s, addr, v).unwrap().0, ..s }), addr) == Some(v),
{
    crate::mem::lemma_write_then_read(s.mem, addr, seq![v]);
    let m = sp_store8(s, addr, v).unwrap().0;
    assert(mem_read(m, addr, 1) == Some(seq![v]));
    assert(seq![v][0] == v);
}

/// An aligned halfword load returns the halfword just stored there.
pub proof fn lemma_store_load_u16(s: CpuView, addr: u64, v: u16)
    requires
        view_wf(s),
        sp_store16(s, addr, v) is Some,
    ensures
        sp_load16((CpuView { mem: sp_store16(s, addr, v).unwrap().0, ..s }), addr) == Some(v),
{
    crate::mem::lemma_write_then_read(s.mem, addr, vstd::bytes::spec_u16_to_le_bytes(v));
    lemma_auto_spec_u16_to_from_le_bytes();
}

/// An aligned word load returns the word just stored there.
pub proof fn lemma_store_load_u32(s: CpuView, addr: u64, v: u32)
    requires
        view_wf(s),
        sp_store32(s, addr, v) is Some,
    ensures
        sp_load32((CpuView { mem: sp_store32(s, addr, v).unwrap().0, ..s }), addr) == Some(v),
{
    crate::mem::lemma_write_then_read(s.mem, addr, vstd::bytes::spec_u32_to_le_bytes(v));
    lemma_auto_spec_u32_to_from_le_bytes();
}

/// An aligned doubleword load returns the doubleword just stored there.
pub proof fn lemma_store_load_u64(s: CpuView, addr: u64, v: u64)
    requires
        view_wf(s),
        sp_store64(s, addr, v) is Some,
    ensures
        sp_load64((CpuView { mem: sp_store64(s, addr, v).unwrap().0, ..s }), addr) == Some(v),
{
    crate::mem::lemma_write_then_read(s.mem, addr, vstd::bytes::spec_u64_to_le_bytes(v));
    lemma_auto_spec_u64_to_from_le_bytes();
}

/// `jal`: the pc moves by the sign-extended offset (wrapping); the link
/// register receives the return address unless it is x0, and no other
/// register changes.
pub proof fn lemma_jal(s: CpuView, t: u64, j: JType)
    requires
        view_wf(s),
        j.rd < 32,
    ensures
        step_insn(s, Instruction::Jal(j), t) is Ok,
        step_insn(s, Instruction::Jal(j), t).unwrap().pc == wadds(s.pc, j.imm as i64),
        j.rd == 0 ==> step_insn(s, Instruction::Jal(j), t).unwrap().regs == s.regs,
        j.rd != 0 ==> step_insn(s, Instruction::Jal(j), t).unwrap().regs[j.rd as int] == wadd(
            s.pc,
            4,
        ),
        forall|k: int|
            0 <= k < 32 && k != j.rd ==> step_insn(s, Instruction::Jal(j), t).unwrap().regs[k]
                == s.regs[k],
{
}

/// `jalr` with `rd == rs1`: the link value is the old pc plus four, and
/// the jump goes through the old `rs1` value (low bit cleared), not the
/// freshly written link.
pub proof fn lemma_jalr_rd_eq_rs1(s: CpuView, t: u64, i: IType)
    requires
        view_wf(s),
        i.rd == i.rs1,
        i.rd < 32,
    ensures
        step_insn(s, Instruction::Jalr(i), t) is Ok,
        step_insn(s, Instruction::Jalr(i), t).unwrap().pc == wadds(reg(s, i.rs1), i.imm as i64)
            & !1u64,
        i.rd != 0 ==> step_insn(s, Instruction::Jalr(i), t).unwrap().regs[i.rd as int] == wadd(
            s.pc,
            4,
        ),
{
}

/// `beq`: taken exactly when the operands are equal; the pc moves by
/// the offset when taken and by four otherwise; registers are kept.
pub proof fn lemma_beq(s: CpuView, t: u64, b: BType)
    requires
        view_wf(s),
        b.rs1 < 32,
        b.rs2 < 32,
    ensures
        step_insn(s, Instruction::Beq(b), t) is Ok,
        step_insn(s, Instruction::Beq(b), t).unwrap().pc == if reg(s, b.rs1) == reg(s, b.rs2) {
            wadds(s.pc, b.imm as i64)
        } else {
            wadd(s.pc, 4)
        },
        step_insn(s, Instruction::Beq(b), t).unwrap().regs == s.regs,
{
}

/// `bne`: taken exactly when the operands differ; the pc moves by the
/// offset when taken and by four otherwise; registers are kept.
pub proof fn lemma_bne(s: CpuView, t: u64, b: BType)
    requires
        view_wf(s),
        b.rs1 < 32,
        b.rs2 < 32,
    ensures
        step_insn(s, Instruction::Bne(b), t) is Ok,
        step_insn(s, Instruction::Bne(b), t).unwrap().pc == if reg(s, b.rs1) != reg(s, b.rs2) {
            wadds(s.pc, b.imm as i64)
        } else {
            wadd(s.pc, 4)
        },
        step_insn(s, Instruction::Bne(b), t).unwrap().regs == s.regs,
{
}

/// `mret` from a state with MPP = 1 and MPIE = 1: the hart drops to
/// supervisor mode at `mepc`, with MIE set, MPIE set, and MPP cleared.
pub proof fn lemma_mret(s: CpuView, t: u64, i: IType)
    requires
        view_wf(s),
        (s.mstatus >> 11) & 3 == 1,
        (s.mstatus >> 7) & 1 == 1,
    ensures
        step_insn(s, Instruction::Mret(i), t) is Ok,
        step_insn(s, Instruction::Mret(i), t).unwrap().privl == 1,
        step_insn(s, Instruction::Mret(i), t).unwrap().pc == s.mepc,
        (step_insn(s, Instruction::Mret(i), t).unwrap().mstatus >> 3) & 1 == 1,
        (step_insn(s, Instruction::Mret(i), t).unwrap().mstatus >> 7) & 1 == 1,
        (step_insn(s, Instruction::Mret(i), t).unwrap().mstatus >> 11) & 3 == 0,
{
    let m = s.mstatus;
    assert(((m >> 7) & 1 == 1) ==> (((((m & !0x8u64) | (((m >> 7) & 1) << 3) | 0x80u64)
        & !0x1800u64) >> 3) & 1 == 1)) by (bit_vector);
    assert(((((m & !0x8u64) | (((m >> 7) & 1) << 3) | 0x80u64) & !0x1800u64) >> 7) & 1 == 1)
        by (bit_vector);
    assert(((((m & !0x8u64) | (((m >> 7) & 1) << 3) | 0x80u64) & !0x1800u64) >> 11) & 3 == 0)
        by (bit_vector);
}

} // verus!
