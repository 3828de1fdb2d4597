//! The instruction decoder: a total, pure function from a 32-bit
//! encoding to a tagged `Instruction` variant carrying its already
//! extracted fields, with every immediate sign-extended.

use crate::bits::{sext_f, sext_field};
use vstd::prelude::*;

verus! {

/// R-format fields: two sources, destination, funct3/funct7 selectors.
#[derive(Debug, Clone, Copy, PartialEq, Eq, Structural)]
pub struct RType {
    pub opcode: u8,
    pub rd: u8,
    pub funct3: u8,
    pub rs1: u8,
    pub rs2: u8,
    pub funct7: u8,
}

/// I-format fields: one source, destination, funct3, 12-bit immediate.
#[derive(Debug, Clone, Copy, PartialEq, Eq, Structural)]
pub struct IType {
    pub opcode: u8,
    pub rd: u8,
    pub funct3: u8,
    pub rs1: u8,
    pub imm: i32,
}

/// S-format fields: two sources, funct3, 12-bit immediate.
#[derive(Debug, Clone, Copy, PartialEq, Eq, Structural)]
pub struct SType {
    pub opcode: u8,
    pub funct3: u8,
    pub rs1: u8,
    pub rs2: u8,
    pub imm: i32,
}

/// B-format fields: two sources, funct3, 13-bit even immediate.
#[derive(Debug, Clone, Copy, PartialEq, Eq, Structural)]
pub struct BType {
    pub opcode: u8,
    pub funct3: u8,
    pub rs1: u8,
    pub rs2: u8,
    pub imm: i32,
}

/// U-format fields: destination and an upper 20-bit immediate.
#[derive(Debug, Clone, Copy, PartialEq, Eq, Structural)]
pub struct UType {
    pub opcode: u8,
    pub rd: u8,
    pub imm: i32,
}

/// J-format fields: destination and a 21-bit even immediate.
#[derive(Debug, Clone, Copy, PartialEq, Eq, Structural)]
pub struct JType {
    pub opcode: u8,
    pub rd: u8,
    pub imm: i32,
}

/// The U-type immediate: bits 31..12 of the word, kept in place, as a
/// signed 32-bit value.
pub open spec fn u_imm_spec(w: u32) -> int {
    sext_f(w & 0xFFFF_F000, 0x8000_0000, 0x1_0000_0000)
}

/// The raw 12-bit I-type immediate field, bits 31..20.
pub open spec fn i_field(w: u32) -> u32 {
    (w >> 20) & 0xFFF
}

/// The I-type immediate: bits 31..20, sign-extended from bit 11.
pub open spec fn i_imm_spec(w: u32) -> int {
    sext_f(i_field(w), 0x800, 0x1000)
}

/// The raw 12-bit S-type immediate field: bits 31..25 over bits 11..7.
pub open spec fn s_field(w: u32) -> u32 {
    (((w >> 25) & 0x7F) << 5) | ((w >> 7) & 0x1F)
}

/// The S-type immediate: the store offset, sign-extended from bit 11.
pub open spec fn s_imm_spec(w: u32) -> int {
    sext_f(s_field(w), 0x800, 0x1000)
}

/// The raw 13-bit B-type immediate field: bit 31 to bit 12, bit 7 to
/// bit 11, bits 30..25 to bits 10..5, bits 11..8 to bits 4..1, bit 0
/// zero.
pub open spec fn b_field(w: u32) -> u32 {
    (((w >> 31) & 1) << 12) | (((w >> 7) & 1) << 11) | (((w >> 25) & 0x3F) << 5) | (((w >> 8)
        & 0xF) << 1)
}

/// The B-type immediate: an even branch offset, sign-extended from
/// bit 12.
pub open spec fn b_imm_spec(w: u32) -> int {
    sext_f(b_field(w), 0x1000, 0x2000)
}

/// The raw 21-bit J-type immediate field: bit 31 to bit 20, bits 19..12
/// kept, bit 20 to bit 11, bits 30..21 to bits 10..1, bit 0 zero.
pub open spec fn j_field(w: u32) -> u32 {
    (((w >> 31) & 1) << 20) | (((w >> 12) & 0xFF) << 12) | (((w >> 20) & 1) << 11) | (((w >> 21)
        & 0x3FF) << 1)
}

/// The J-type immediate: an even jump offset, sign-extended from bit 20.
pub open spec fn j_imm_spec(w: u32) -> int {
    sext_f(j_field(w), 0x10_0000, 0x20_0000)
}

/// The R-format fields of a word.
pub open spec fn r_type_spec(w: u32) -> RType {
    RType {
        opcode: (w & 0x7F) as u8,
        rd: ((w >> 7) & 0x1F) as u8,
        funct3: ((w >> 12) & 0x07) as u8,
        rs1: ((w >> 15) & 0x1F) as u8,
        rs2: ((w >> 20) & 0x1F) as u8,
        funct7: ((w >> 25) & 0x7F) as u8,
    }
}

/// The I-format fields of a word.
pub open spec fn i_type_spec(w: u32) -> IType {
    IType {
        opcode: (w & 0x7F) as u8,
        rd: ((w >> 7) & 0x1F) as u8,
        funct3: ((w >> 12) & 0x07) as u8,
        rs1: ((w >> 15) & 0x1F) as u8,
        imm: i_imm_spec(w) as i32,
    }
}

/// The S-format fields of a word.
pub open spec fn s_type_spec(w: u32) -> SType {
    SType {
        opcode: (w & 0x7F) as u8,
        funct3: ((w >> 12) & 0x07) as u8,
        rs1: ((w >> 15) & 0x1F) as u8,
        rs2: ((w >> 20) & 0x1F) as u8,
        imm: s_imm_spec(w) as i32,
    }
}

/// The B-format fields of a word.
pub open spec fn b_type_spec(w: u32) -> BType {
    BType {
        opcode: (w & 0x7F) as u8,
        funct3: ((w >> 12) & 0x07) as u8,
        rs1: ((w >> 15) & 0x1F) as u8,
        rs2: ((w >> 20) & 0x1F) as u8,
        imm: b_imm_spec(w) as i32,
    }
}

/// The U-format fields of a word.
pub open spec fn u_type_spec(w: u32) -> UType {
    UType {
        opcode: (w & 0x7F) as u8,
        rd: ((w >> 7) & 0x1F) as u8,
        imm: u_imm_spec(w) as i32,
    }
}

/// The J-format fields of a word.
pub open spec fn j_type_spec(w: u32) -> JType {
    JType {
        opcode: (w & 0x7F) as u8,
        rd: ((w >> 7) & 0x1F) as u8,
        imm: j_imm_spec(w) as i32,
    }
}

/// Extract the 7-bit opcode field.
fn opcode_of(w: u32) -> (r: u8)
    ensures
        r == (w & 0x7F) as u8,
        r < 0x80,
{
    proof {
        assert(w & 0x7F < 0x80) by (bit_vector);
    }
    (w & 0x7F) as u8
}

/// Extract a 5-bit register field at bit `lo`.
fn reg_field(w: u32, lo: u32) -> (r: u8)
    requires
        lo < 27,
    ensures
        r == ((w >> lo) & 0x1F) as u8,
        r < 32,
{
    proof {
        assert((w >> lo) & 0x1F < 32) by (bit_vector);
    }
    ((w >> lo) & 0x1F) as u8
}

/// Extract the 3-bit funct3 field.
fn funct3_of(w: u32) -> (r: u8)
    ensures
        r == ((w >> 12) & 0x07) as u8,
        r < 8,
{
    proof {
        assert((w >> 12) & 0x07 < 8) by (bit_vector);
    }
    ((w >> 12) & 0x07) as u8
}

impl From<u32> for RType {
    /// Extract the R-format fields.
    fn from(w: u32) -> (r: Self) {
        proof {
            assert((w >> 25) & 0x7F < 0x80) by (bit_vector);
        }
        let r = RType {
            opcode: opcode_of(w),
            rd: reg_field(w, 7),
            funct3: funct3_of(w),
            rs1: reg_field(w, 15),
            rs2: reg_field(w, 20),
            funct7: ((w >> 25) & 0x7F) as u8,
        };
        r
    }
}

impl vstd::std_specs::convert::FromSpecImpl<u32> for RType {
    open spec fn obeys_from_spec() -> bool {
        true
    }

    open spec fn from_spec(w: u32) -> RType {
        r_type_spec(w)
    }
}

impl From<u32> for IType {
    /// Extract the I-format fields, sign-extending the immediate.
    fn from(w: u32) -> (r: Self) {
        proof {
            assert((w >> 20) & 0xFFF < 0x1000) by (bit_vector);
        }
        let f = (w >> 20) & 0xFFF;
        IType {
            opcode: opcode_of(w),
            rd: reg_field(w, 7),
            funct3: funct3_of(w),
            rs1: reg_field(w, 15),
            imm: sext_field(f, 0x800, 0x1000),
        }
    }
}

impl vstd::std_specs::convert::FromSpecImpl<u32> for IType {
    open spec fn obeys_from_spec() -> bool {
        true
    }

    open spec fn from_spec(w: u32) -> IType {
        i_type_spec(w)
    }
}

impl From<u32> for SType {
    /// Extract the S-format fields, sign-extending the immediate.
    fn from(w: u32) -> (r: Self) {
        proof {
            assert((((w >> 25) & 0x7F) << 5) | ((w >> 7) & 0x1F) < 0x1000) by (bit_vector);
        }
        let f = (((w >> 25) & 0x7F) << 5) | ((w >> 7) & 0x1F);
        SType {
            opcode: opcode_of(w),
            funct3: funct3_of(w),
            rs1: reg_field(w, 15),
            rs2: reg_field(w, 20),
            imm: sext_field(f, 0x800, 0x1000),
        }
    }
}

impl vstd::std_specs::convert::FromSpecImpl<u32> for SType {
    open spec fn obeys_from_spec() -> bool {
        true
    }

    open spec fn from_spec(w: u32) -> SType {
        s_type_spec(w)
    }
}

/// The B-type immediate of a word, as the signed branch offset.
pub fn decode_b_imm(w: u32) -> (r: i32)
    ensures
        r as int == b_imm_spec(w),
{
    proof {
        assert((((w >> 31) & 1) << 12) | (((w >> 7) & 1) << 11) | (((w >> 25) & 0x3F) << 5) | (((w
            >> 8) & 0xF) << 1) < 0x2000) by (bit_vector);
    }
    let f = (((w >> 31) & 1) << 12) | (((w >> 7) & 1) << 11) | (((w >> 25) & 0x3F) << 5) | (((w
        >> 8) & 0xF) << 1);
    sext_field(f, 0x1000, 0x2000)
}

impl From<u32> for BType {
    /// Extract the B-format fields, assembling the even branch offset.
    fn from(w: u32) -> (r: Self) {
        BType {
            opcode: opcode_of(w),
            funct3: funct3_of(w),
            rs1: reg_field(w, 15),
            rs2: reg_field(w, 20),
            imm: decode_b_imm(w),
        }
    }
}

impl vstd::std_specs::convert::FromSpecImpl<u32> for BType {
    open spec fn obeys_from_spec() -> bool {
        true
    }

    open spec fn from_spec(w: u32) -> BType {
        b_type_spec(w)
    }
}

/// The U-type immediate of a word: bits 31..12 kept in place.
pub fn decode_u_imm(w: u32) -> (r: i32)
    ensures
        r as int == u_imm_spec(w),
{
    let f = w & 0xFFFF_F000;
    sext_field(f, 0x8000_0000, 0x1_0000_0000)
}

impl From<u32> for UType {
    /// Extract the U-format fields.
    fn from(w: u32) -> (r: Self) {
        UType { opcode: opcode_of(w), rd: reg_field(w, 7), imm: decode_u_imm(w) }
    }
}

impl vstd::std_specs::convert::FromSpecImpl<u32> for UType {
    open spec fn obeys_from_spec() -> bool {
        true
    }

    open spec fn from_spec(w: u32) -> UType {
        u_type_spec(w)
    }
}

/// The J-type immediate of a word: the even jump offset used by `jal`.
pub fn decode_i_imm(w: u32) -> (r: i32)
    ensures
        r as int == j_imm_spec(w),
{
    proof {
        assert((((w >> 31) & 1) << 20) | (((w >> 12) & 0xFF) << 12) | (((w >> 20) & 1) << 11) | (((
        w >> 21) & 0x3FF) << 1) < 0x20_0000) by (bit_vector);
    }
    let f = (((w >> 31) & 1) << 20) | (((w >> 12) & 0xFF) << 12) | (((w >> 20) & 1) << 11) | (((w
        >> 21) & 0x3FF) << 1);
    sext_field(f, 0x10_0000, 0x20_0000)
}

impl From<u32> for JType {
    /// Extract the J-format fields, assembling the even jump offset.
    fn from(w: u32) -> (r: Self) {
        JType { opcode: opcode_of(w), rd: reg_field(w, 7), imm: decode_i_imm(w) }
    }
}

impl vstd::std_specs::convert::FromSpecImpl<u32> for JType {
    open spec fn obeys_from_spec() -> bool {
        true
    }

    open spec fn from_spec(w: u32) -> JType {
        j_type_spec(w)
    }
}

/// A decoded instruction: one variant per supported mnemonic, carrying
/// its extracted fields. `Invalid` keeps the raw word of any encoding
/// that is not supported.
#[derive(Debug, Clone, Copy, PartialEq, Eq, Structural)]
pub enum Instruction {
    Auipc(UType),
    Lui(UType),
    Addi(IType),
    Slli(IType),
    Slti(IType),
    Sltiu(IType),
    Srai(IType),
    Srli(IType),
    Xori(IType),
    Ori(IType),
    Andi(IType),
    Addiw(IType),
    Slliw(IType),
    Srliw(IType),
    Addw(RType),
    Subw(RType),
    Sllw(RType),
    Mulw(RType),
    Csrrw(IType),
    Csrrs(IType),
    Csrrc(IType),
    Csrrwi(IType),
    Mret(IType),
    Sret(IType),
    Wfi(IType),
    Add(RType),
    Sub(RType),
    Sll(RType),
    Slt(RType),
    Sltu(RType),
    Xor(RType),
    Srl(RType),
    Sra(RType),
    Or(RType),
    And(RType),
    Load(IType),
    Store(SType),
    Ebreak,
    Ecall,
    Mul(RType),
    Mulh(RType),
    Div(RType),
    Divu(RType),
    Rem(RType),
    Remu(RType),
    Jal(JType),
    Jalr(IType),
    Beq(BType),
    Bne(BType),
    Blt(BType),
    Bge(BType),
    Bltu(BType),
    Bgeu(BType),
    Amoswapw(RType),
    Amoaddw(RType),
    Amoswapd(RType),
    Fence,
    Invalid(u32),
}

/// What `Instruction::decode` returns for every word.
pub open spec fn decode_spec(w: u32) -> Instruction {
    let opcode = w & 0x7F;
    if opcode == 0x03 {
        Instruction::Load(i_type_spec(w))
    } else if opcode == 0x0F {
        Instruction::Fence
    } else if opcode == 0x13 {
        let it = i_type_spec(w);
        if it.funct3 == 0 {
            Instruction::Addi(it)
        } else if it.funct3 == 1 {
            Instruction::Slli(it)
        } else if it.funct3 == 2 {
            Instruction::Slti(it)
        } else if it.funct3 == 3 {
            Instruction::Sltiu(it)
        } else if it.funct3 == 4 {
            Instruction::Xori(it)
        } else if it.funct3 == 5 {
            if it.imm >> 5 == 0x20 {
                Instruction::Srai(it)
            } else {
                Instruction::Srli(it)
            }
        } else if it.funct3 == 6 {
            Instruction::Ori(it)
        } else {
            Instruction::Andi(it)
        }
    } else if opcode == 0x1B {
        let it = i_type_spec(w);
        if it.funct3 == 0 {
            Instruction::Addiw(it)
        } else if it.funct3 == 1 {
            Instruction::Slliw(it)
        } else if it.funct3 == 5 {
            Instruction::Srliw(it)
        } else {
            Instruction::Invalid(w)
        }
    } else if opcode == 0x17 {
        Instruction::Auipc(u_type_spec(w))
    } else if opcode == 0x23 {
        Instruction::Store(s_type_spec(w))
    } else if opcode == 0x2F {
        let rt = r_type_spec(w);
        if rt.funct3 == 2 && rt.funct7 >> 2 == 1 {
            Instruction::Amoswapw(rt)
        } else if rt.funct3 == 2 && rt.funct7 >> 2 == 0 {
            Instruction::Amoaddw(rt)
        } else if rt.funct3 == 3 && rt.funct7 >> 2 == 1 {
            Instruction::Amoswapd(rt)
        } else {
            Instruction::Invalid(w)
        }
    } else if opcode == 0x33 {
        let rt = r_type_spec(w);
        if rt.funct7 == 0x00 && rt.funct3 == 0 {
            Instruction::Add(rt)
        } else if rt.funct7 == 0x00 && rt.funct3 == 1 {
            Instruction::Sll(rt)
        } else if rt.funct7 == 0x00 && rt.funct3 == 2 {
            Instruction::Slt(rt)
        } else if rt.funct7 == 0x00 && rt.funct3 == 3 {
            Instruction::Sltu(rt)
        } else if rt.funct7 == 0x00 && rt.funct3 == 4 {
            Instruction::Xor(rt)
        } else if rt.funct7 == 0x00 && rt.funct3 == 5 {
            Instruction::Srl(rt)
        } else if rt.funct7 == 0x00 && rt.funct3 == 6 {
            Instruction::Or(rt)
        } else if rt.funct7 == 0x00 && rt.funct3 == 7 {
            Instruction::And(rt)
        } else if rt.funct7 == 0x20 && rt.funct3 == 0 {
            Instruction::Sub(rt)
        } else if rt.funct7 == 0x20 && rt.funct3 == 5 {
            Instruction::Sra(rt)
        } else if rt.funct7 == 0x01 && rt.funct3 == 0 {
            Instruction::Mul(rt)
        } else if rt.funct7 == 0x01 && rt.funct3 == 1 {
            Instruction::Mulh(rt)
        } else if rt.funct7 == 0x01 && rt.funct3 == 4 {
            Instruction::Div(rt)
        } else if rt.funct7 == 0x01 && rt.funct3 == 5 {
            Instruction::Divu(rt)
        } else if rt.funct7 == 0x01 && rt.funct3 == 6 {
            Instruction::Rem(rt)
        } else if rt.funct7 == 0x01 && rt.funct3 == 7 {
            Instruction::Remu(rt)
        } else {
            Instruction::Invalid(w)
        }
    } else if opcode == 0x37 {
        Instruction::Lui(u_type_spec(w))
    } else if opcode == 0x3B {
        let rt = r_type_spec(w);
        if rt.funct3 == 0 && rt.funct7 == 0x00 {
            Instruction::Addw(rt)
        } else if rt.funct3 == 0 && rt.funct7 == 0x20 {
            Instruction::Subw(rt)
        } else if rt.funct3 == 0 && rt.funct7 == 0x01 {
            Instruction::Mulw(rt)
        } else if rt.funct3 == 1 && rt.funct7 == 0x00 {
            Instruction::Sllw(rt)
        } else {
            Instruction::Invalid(w)
        }
    } else if opcode == 0x63 {
        let bt = b_type_spec(w);
        if bt.funct3 == 0 {
            Instruction::Beq(bt)
        } else if bt.funct3 == 1 {
            Instruction::Bne(bt)
        } else if bt.funct3 == 4 {
            Instruction::Blt(bt)
        } else if bt.funct3 == 5 {
            Instruction::Bge(bt)
        } else if bt.funct3 == 6 {
            Instruction::Bltu(bt)
        } else if bt.funct3 == 7 {
            Instruction::Bgeu(bt)
        } else {
            Instruction::Invalid(w)
        }
    } else if opcode == 0x67 {
        Instruction::Jalr(i_type_spec(w))
    } else if opcode == 0x6F {
        Instruction::Jal(j_type_spec(w))
    } else if opcode == 0x73 {
        let it = i_type_spec(w);
        if it.funct3 == 0 && it.imm == 0x000 {
            Instruction::Ecall
        } else if it.funct3 == 0 && it.imm == 0x001 {
            Instruction::Ebreak
        } else if it.funct3 == 0 && it.imm == 0x102 {
            Instruction::Sret(it)
        } else if it.funct3 == 0 && it.imm == 0x105 {
            Instruction::Wfi(it)
        } else if it.funct3 == 0 && it.imm == 0x302 {
            Instruction::Mret(it)
        } else if it.funct3 == 1 {
            Instruction::Csrrw(it)
        } else if it.funct3 == 2 {
            Instruction::Csrrs(it)
        } else if it.funct3 == 3 {
            Instruction::Csrrc(it)
        } else if it.funct3 == 5 {
            Instruction::Csrrwi(it)
        } else {
            Instruction::Invalid(w)
        }
    } else {
        Instruction::Invalid(w)
    }
}

/// Every register field of a decoded instruction indexes one of the 32
/// architectural registers.
pub open spec fn insn_regs_wf(i: Instruction) -> bool {
    match i {
        Instruction::Auipc(u) => u.rd < 32,
        Instruction::Lui(u) => u.rd < 32,
        Instruction::Addi(t) => t.rd < 32 && t.rs1 < 32,
        Instruction::Slli(t) => t.rd < 32 && t.rs1 < 32,
        Instruction::Slti(t) => t.rd < 32 && t.rs1 < 32,
        Instruction::Sltiu(t) => t.rd < 32 && t.rs1 < 32,
        Instruction::Srai(t) => t.rd < 32 && t.rs1 < 32,
        Instruction::Srli(t) => t.rd < 32 && t.rs1 < 32,
        Instruction::Xori(t) => t.rd < 32 && t.rs1 < 32,
        Instruction::Ori(t) => t.rd < 32 && t.rs1 < 32,
        Instruction::Andi(t) => t.rd < 32 && t.rs1 < 32,
        Instruction::Addiw(t) => t.rd < 32 && t.rs1 < 32,
        Instruction::Slliw(t) => t.rd < 32 && t.rs1 < 32,
        Instruction::Srliw(t) => t.rd < 32 && t.rs1 < 32,
        Instruction::Addw(t) => t.rd < 32 && t.rs1 < 32 && t.rs2 < 32,
        Instruction::Subw(t) => t.rd < 32 && t.rs1 < 32 && t.rs2 < 32,
        Instruction::Sllw(t) => t.rd < 32 && t.rs1 < 32 && t.rs2 < 32,
        Instruction::Mulw(t) => t.rd < 32 && t.rs1 < 32 && t.rs2 < 32,
        Instruction::Csrrw(t) => t.rd < 32 && t.rs1 < 32,
        Instruction::Csrrs(t) => t.rd < 32 && t.rs1 < 32,
        Instruction::Csrrc(t) => t.rd < 32 && t.rs1 < 32,
        Instruction::Csrrwi(t) => t.rd < 32 && t.rs1 < 32,
        Instruction::Mret(t) => t.rd < 32 && t.rs1 < 32,
        Instruction::Sret(t) => t.rd < 32 && t.rs1 < 32,
        Instruction::Wfi(t) => t.rd < 32 && t.rs1 < 32,
        Instruction::Add(t) => t.rd < 32 && t.rs1 < 32 && t.rs2 < 32,
        Instruction::Sub(t) => t.rd < 32 && t.rs1 < 32 && t.rs2 < 32,
        Instruction::Sll(t) => t.rd < 32 && t.rs1 < 32 && t.rs2 < 32,
        Instruction::Slt(t) => t.rd < 32 && t.rs1 < 32 && t.rs2 < 32,
        Instruction::Sltu(t) => t.rd < 32 && t.rs1 < 32 && t.rs2 < 32,
        Instruction::Xor(t) => t.rd < 32 && t.rs1 < 32 && t.rs2 < 32,
        Instruction::Srl(t) => t.rd < 32 && t.rs1 < 32 && t.rs2 < 32,
        Instruction::Sra(t) => t.rd < 32 && t.rs1 < 32 && t.rs2 < 32,
        Instruction::Or(t) => t.rd < 32 && t.rs1 < 32 && t.rs2 < 32,
        Instruction::And(t) => t.rd < 32 && t.rs1 < 32 && t.rs2 < 32,
        Instruction::Load(t) => t.rd < 32 && t.rs1 < 32,
        Instruction::Store(t) => t.rs1 < 32 && t.rs2 < 32,
        Instruction::Ebreak => true,
        Instruction::Ecall => true,
        Instruction::Mul(t) => t.rd < 32 && t.rs1 < 32 && t.rs2 < 32,
        Instruction::Mulh(t) => t.rd < 32 && t.rs1 < 32 && t.rs2 < 32,
        Instruction::Div(t) => t.rd < 32 && t.rs1 < 32 && t.rs2 < 32,
        Instruction::Divu(t) => t.rd < 32 && t.rs1 < 32 && t.rs2 < 32,
        Instruction::Rem(t) => t.rd < 32 && t.rs1 < 32 && t.rs2 < 32,
        Instruction::Remu(t) => t.rd < 32 && t.rs1 < 32 && t.rs2 < 32,
        Instruction::Jal(j) => j.rd < 32,
        Instruction::Jalr(t) => t.rd < 32 && t.rs1 < 32,
        Instruction::Beq(b) => b.rs1 < 32 && b.rs2 < 32,
        Instruction::Bne(b) => b.rs1 < 32 && b.rs2 < 32,
        Instruction::Blt(b) => b.rs1 < 32 && b.rs2 < 32,
        Instruction::Bge(b) => b.rs1 < 32 && b.rs2 < 32,
        Instruction::Bltu(b) => b.rs1 < 32 && b.rs2 < 32,
        Instruction::Bgeu(b) => b.rs1 < 32 && b.rs2 < 32,
        Instruction::Amoswapw(t) => t.rd < 32 && t.rs1 < 32 && t.rs2 < 32,
        Instruction::Amoaddw(t) => t.rd < 32 && t.rs1 < 32 && t.rs2 < 32,
        Instruction::Amoswapd(t) => t.rd < 32 && t.rs1 < 32 && t.rs2 < 32,
        Instruction::Fence => true,
        Instruction::Invalid(_) => true,
    }
}

/// Every decoded instruction has in-range register fields.
pub proof fn lemma_decode_regs_wf(w: u32)
    ensures
        insn_regs_wf(decode_spec(w)),
{
    assert((w >> 7) & 0x1F < 32 && (w >> 15) & 0x1F < 32 && (w >> 20) & 0x1F < 32)
        by (bit_vector);
}

impl Instruction {
    /// Decode one 32-bit word. Total and pure: every word decodes, an
    /// unsupported encoding decodes to `Invalid`, and equal words always
    /// decode to equal instructions.
    pub fn decode(w: u32) -> (r: Self)
        ensures
            r == decode_spec(w),
            insn_regs_wf(r),
    {
        proof {
            lemma_decode_regs_wf(w);
        }
        let opcode = w & 0x7F;
        match opcode {
            0x03 => Instruction::Load(IType::from(w)),
            0x0F => Instruction::Fence,
            0x13 => {
                let it = IType::from(w);
                match it.funct3 {
                    0 => Instruction::Addi(it),
                    1 => Instruction::Slli(it),
                    2 => Instruction::Slti(it),
                    3 => Instruction::Sltiu(it),
                    4 => Instruction::Xori(it),
                    5 => {
                        let shifttype = it.imm >> 5;
                        if shifttype == 0x20 {
                            Instruction::Srai(it)
                        } else {
                            Instruction::Srli(it)
                        }
                    },
                    6 => Instruction::Ori(it),
                    _ => Instruction::Andi(it),
                }
            },
            0x1B => {
                let it = IType::from(w);
                match it.funct3 {
                    0 => Instruction::Addiw(it),
                    1 => Instruction::Slliw(it),
                    5 => Instruction::Srliw(it),
                    _ => Instruction::Invalid(w),
                }
            },
            0x17 => Instruction::Auipc(UType::from(w)),
            0x23 => Instruction::Store(SType::from(w)),
            0x2F => {
                let rt = RType::from(w);
                match (rt.funct3, rt.funct7 >> 2) {
                    (2, 1) => Instruction::Amoswapw(rt),
                    (2, 0) => Instruction::Amoaddw(rt),
                    (3, 1) => Instruction::Amoswapd(rt),
                    _ => Instruction::Invalid(w),
                }
            },
            0x33 => {
                let rt = RType::from(w);
                match (rt.funct7, rt.funct3) {
                    (0x00, 0x0) => Instruction::Add(rt),
                    (0x00, 0x1) => Instruction::Sll(rt),
                    (0x00, 0x2) => Instruction::Slt(rt),
                    (0x00, 0x3) => Instruction::Sltu(rt),
                    (0x00, 0x4) => Instruction::Xor(rt),
                    (0x00, 0x5) => Instruction::Srl(rt),
                    (0x00, 0x6) => Instruction::Or(rt),
                    (0x00, 0x7) => Instruction::And(rt),
                    (0x20, 0x0) => Instruction::Sub(rt),
                    (0x20, 0x5) => Instruction::Sra(rt),
                    (0x01, 0x0) => Instruction::Mul(rt),
                    (0x01, 0x1) => Instruction::Mulh(rt),
                    (0x01, 0x4) => Instruction::Div(rt),
                    (0x01, 0x5) => Instruction::Divu(rt),
                    (0x01, 0x6) => Instruction::Rem(rt),
                    (0x01, 0x7) => Instruction::Remu(rt),
                    _ => Instruction::Invalid(w),
                }
            },
            0x37 => Instruction::Lui(UType::from(w)),
            0x3B => {
                let rt = RType::from(w);
                match (rt.funct3, rt.funct7) {
                    (0x0, 0x00) => Instruction::Addw(rt),
                    (0x0, 0x20) => Instruction::Subw(rt),
                    (0x0, 0x01) => Instruction::Mulw(rt),
                    (0x1, 0x00) => Instruction::Sllw(rt),
                    _ => Instruction::Invalid(w),
                }
            },
            0x63 => {
                let bt = BType::from(w);
                match bt.funct3 {
                    0 => Instruction::Beq(bt),
                    1 => Instruction::Bne(bt),
                    4 => Instruction::Blt(bt),
                    5 => Instruction::Bge(bt),
                    6 => Instruction::Bltu(bt),
                    7 => Instruction::Bgeu(bt),
                    _ => Instruction::Invalid(w),
                }
            },
            0x67 => Instruction::Jalr(IType::from(w)),
            0x6F => Instruction::Jal(JType::from(w)),
            0x73 => {
                let it = IType::from(w);
                match (it.funct3, it.imm) {
                    (0, 0x000) => Instruction::Ecall,
                    (0, 0x001) => Instruction::Ebreak,
                    (0, 0x102) => Instruction::Sret(it),
                    (0, 0x105) => Instruction::Wfi(it),
                    (0, 0x302) => Instruction::Mret(it),
                    (1, _) => Instruction::Csrrw(it),
                    (2, _) => Instruction::Csrrs(it),
                    (3, _) => Instruction::Csrrc(it),
                    (5, _) => Instruction::Csrrwi(it),
                    _ => Instruction::Invalid(w),
                }
            },
            _ => Instruction::Invalid(w),
        }
    }
}

} // verus!
