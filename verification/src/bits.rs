//! Arithmetic views of machine words: two's-complement interpretation,
//! sign extension into wider words, truncation, and shift-amount masking.

use vstd::prelude::*;

verus! {

/// The signed (two's-complement) value of a 64-bit word.
pub open spec fn sig64(v: u64) -> int {
    if v >= 0x8000_0000_0000_0000 {
        v - 0x1_0000_0000_0000_0000
    } else {
        v as int
    }
}

/// A byte sign-extended to 64 bits.
pub open spec fn sext8_64(b: u8) -> u64 {
    if b >= 0x80 {
        (0xFFFF_FFFF_FFFF_FF00 + b) as u64
    } else {
        b as u64
    }
}

/// A halfword sign-extended to 64 bits.
pub open spec fn sext16_64(h: u16) -> u64 {
    if h >= 0x8000 {
        (0xFFFF_FFFF_FFFF_0000 + h) as u64
    } else {
        h as u64
    }
}

/// A 32-bit word sign-extended to 64 bits.
pub open spec fn sext32_64(w: u32) -> u64 {
    if w >= 0x8000_0000 {
        (0xFFFF_FFFF_0000_0000 + w) as u64
    } else {
        w as u64
    }
}

/// A 32-bit immediate sign-extended to 64 bits.
pub open spec fn sext_i32_64(x: i32) -> u64 {
    if x < 0 {
        (0x1_0000_0000_0000_0000 + x) as u64
    } else {
        x as u64
    }
}

/// The two's-complement value of a `full`-sized field `f`, where `half`
/// is the weight of the sign bit and `full == 2 * half`.
pub open spec fn sext_f(f: u32, half: int, full: int) -> int {
    if f >= half {
        f - full
    } else {
        f as int
    }
}

/// Executable counterpart of [`sext_f`]: sign-extend a bit field into an
/// `i32`.
pub fn sext_field(f: u32, half: u32, full: i64) -> (r: i32)
    requires
        1 <= half,
        full == 2 * half,
        f < full,
        full <= 0x1_0000_0000,
    ensures
        r as int == sext_f(f, half as int, full as int),
{
    if f >= half {
        ((f as i64) - full) as i32
    } else {
        f as i32
    }
}

/// Executable counterpart of [`sext8_64`].
pub fn sx8(b: u8) -> (r: u64)
    ensures
        r == sext8_64(b),
{
    if b >= 0x80 {
        0xFFFF_FFFF_FFFF_FF00u64 + (b as u64)
    } else {
        b as u64
    }
}

/// Executable counterpart of [`sext16_64`].
pub fn sx16(h: u16) -> (r: u64)
    ensures
        r == sext16_64(h),
{
    if h >= 0x8000 {
        0xFFFF_FFFF_FFFF_0000u64 + (h as u64)
    } else {
        h as u64
    }
}

/// Executable counterpart of [`sext32_64`].
pub fn sx32(w: u32) -> (r: u64)
    ensures
        r == sext32_64(w),
{
    if w >= 0x8000_0000 {
        0xFFFF_FFFF_0000_0000u64 + (w as u64)
    } else {
        w as u64
    }
}

/// Executable counterpart of [`sext_i32_64`]: widen an immediate to a
/// 64-bit word, keeping its two's-complement value.
pub fn sxi32(x: i32) -> (r: u64)
    ensures
        r == sext_i32_64(x),
{
    if x >= 0 {
        x as u64
    } else {
        let m: u64 = (-(x as i64)) as u64;
        0xFFFF_FFFF_FFFF_FFFFu64 - m + 1
    }
}

/// The low 32 bits of a 64-bit word.
pub fn low32(v: u64) -> (r: u32)
    ensures
        r == v as u32,
{
    proof {
        assert(v as u32 == v & 0xFFFF_FFFF) by (bit_vector);
        assert(v & 0xFFFF_FFFF <= 0xFFFF_FFFF) by (bit_vector);
    }
    let r: u64 = v & 0xFFFF_FFFF;
    r as u32
}

/// The low 16 bits of a 64-bit word.
pub fn low16(v: u64) -> (r: u16)
    ensures
        r == v as u16,
{
    proof {
        assert(v as u16 == v & 0xFFFF) by (bit_vector);
        assert(v & 0xFFFF <= 0xFFFF) by (bit_vector);
    }
    let r: u64 = v & 0xFFFF;
    r as u16
}

/// The low byte of a 64-bit word.
pub fn low8(v: u64) -> (r: u8)
    ensures
        r == v as u8,
{
    proof {
        assert(v as u8 == v & 0xFF) by (bit_vector);
        assert(v & 0xFF <= 0xFF) by (bit_vector);
    }
    let r: u64 = v & 0xFF;
    r as u8
}

/// Signed comparison of two 64-bit words.
pub fn s_lt64(a: u64, b: u64) -> (r: bool)
    ensures
        r == (sig64(a) < sig64(b)),
{
    let an = a >= 0x8000_0000_0000_0000;
    let bn = b >= 0x8000_0000_0000_0000;
    if an != bn {
        an
    } else {
        a < b
    }
}

/// Arithmetic (sign-replicating) right shift of a 64-bit word.
pub open spec fn sra64_spec(v: u64, sh: u64) -> u64 {
    if v < 0x8000_0000_0000_0000 {
        v >> sh
    } else {
        !((!v) >> sh)
    }
}

/// Executable counterpart of [`sra64_spec`].
pub fn sra64(v: u64, sh: u64) -> (r: u64)
    requires
        sh < 64,
    ensures
        r == sra64_spec(v, sh),
{
    if v < 0x8000_0000_0000_0000 {
        v >> sh
    } else {
        !((!v) >> sh)
    }
}

/// A 6-bit shift amount taken from the low bits of a register value.
pub fn mask6(v: u64) -> (r: u64)
    ensures
        r == v & 0x3F,
        r < 64,
{
    proof {
        assert(v & 0x3F < 64) by (bit_vector);
    }
    v & 0x3F
}

/// A 5-bit shift amount taken from the low bits of a 32-bit value.
pub fn mask5_32(v: u32) -> (r: u32)
    ensures
        r == v & 0x1F,
        r < 32,
{
    proof {
        assert(v & 0x1F < 32) by (bit_vector);
    }
    v & 0x1F
}

/// The shift amount encoded in the low 6 bits of an I-type immediate.
pub open spec fn shamt6(imm: i32) -> u64 {
    (imm & 0x3F) as u64
}

/// Executable counterpart of [`shamt6`].
pub fn shamt6_of(imm: i32) -> (r: u64)
    ensures
        r == shamt6(imm),
        r < 64,
{
    proof {
        assert(0 <= imm & 0x3F < 64) by (bit_vector);
    }
    (imm & 0x3F) as u64
}

/// The shift amount encoded in the low 5 bits of an I-type immediate.
pub open spec fn shamt5(imm: i32) -> u32 {
    (imm & 0x1F) as u32
}

/// Executable counterpart of [`shamt5`].
pub fn shamt5_of(imm: i32) -> (r: u32)
    ensures
        r == shamt5(imm),
        r < 32,
{
    proof {
        assert(0 <= imm & 0x1F < 32) by (bit_vector);
    }
    (imm & 0x1F) as u32
}

/// The CSR identifier encoded in the low 12 bits of an I-type immediate.
pub open spec fn csr_index(imm: i32) -> u32 {
    (imm & 0xFFF) as u32
}

/// Executable counterpart of [`csr_index`].
pub fn csr_index_of(imm: i32) -> (r: u32)
    ensures
        r == csr_index(imm),
        r < 0x1000,
{
    proof {
        assert(0 <= imm & 0xFFF < 0x1000) by (bit_vector);
    }
    (imm & 0xFFF) as u32
}

/// Absolute value of an integer.
pub open spec fn iabs(x: int) -> int {
    if x < 0 {
        -x
    } else {
        x
    }
}

/// Magnitude of a 64-bit word read as two's complement.
pub fn abs64(v: u64) -> (r: u64)
    ensures
        r == iabs(sig64(v)),
{
    if v >= 0x8000_0000_0000_0000 {
        (u64::MAX - v) + 1
    } else {
        v
    }
}

/// Unsigned division, with division by zero yielding all ones.
pub open spec fn udiv64_spec(a: u64, b: u64) -> u64 {
    if b == 0 {
        0xFFFF_FFFF_FFFF_FFFFu64
    } else {
        a / b
    }
}

/// Executable counterpart of [`udiv64_spec`].
pub fn udiv64(a: u64, b: u64) -> (r: u64)
    ensures
        r == udiv64_spec(a, b),
{
    if b == 0 {
        u64::MAX
    } else {
        a / b
    }
}

/// Unsigned remainder, with division by zero yielding the dividend.
pub open spec fn urem64_spec(a: u64, b: u64) -> u64 {
    if b == 0 {
        a
    } else {
        a % b
    }
}

/// Executable counterpart of [`urem64_spec`].
pub fn urem64(a: u64, b: u64) -> (r: u64)
    ensures
        r == urem64_spec(a, b),
{
    if b == 0 {
        a
    } else {
        a % b
    }
}

/// Signed division on two's-complement words: truncated toward zero,
/// division by zero yields all ones, and the one overflowing quotient
/// (most negative value divided by minus one) yields the dividend.
pub open spec fn sdiv64_spec(a: u64, b: u64) -> u64 {
    if b == 0 {
        0xFFFF_FFFF_FFFF_FFFFu64
    } else if a == 0x8000_0000_0000_0000 && b == 0xFFFF_FFFF_FFFF_FFFF {
        a
    } else {
        let q = iabs(sig64(a)) / iabs(sig64(b));
        if (sig64(a) < 0) == (sig64(b) < 0) {
            q as u64
        } else if q == 0 {
            0u64
        } else {
            (0x1_0000_0000_0000_0000 - q) as u64
        }
    }
}

/// Executable counterpart of [`sdiv64_spec`].
pub fn sdiv64(a: u64, b: u64) -> (r: u64)
    ensures
        r == sdiv64_spec(a, b),
{
    if b == 0 {
        return u64::MAX;
    }
    if a == 0x8000_0000_0000_0000 && b == 0xFFFF_FFFF_FFFF_FFFF {
        return a;
    }
    let na = abs64(a);
    let nb = abs64(b);
    let q = na / nb;
    let aneg = a >= 0x8000_0000_0000_0000;
    let bneg = b >= 0x8000_0000_0000_0000;
    if aneg == bneg {
        q
    } else if q == 0 {
        0
    } else {
        (u64::MAX - q) + 1
    }
}

/// Signed remainder on two's-complement words: the sign follows the
/// dividend, a zero divisor yields the dividend, and the overflowing
/// quotient case yields zero.
pub open spec fn srem64_spec(a: u64, b: u64) -> u64 {
    if b == 0 {
        a
    } else if a == 0x8000_0000_0000_0000 && b == 0xFFFF_FFFF_FFFF_FFFF {
        0u64
    } else {
        let m = iabs(sig64(a)) % iabs(sig64(b));
        if sig64(a) >= 0 {
            m as u64
        } else if m == 0 {
            0u64
        } else {
            (0x1_0000_0000_0000_0000 - m) as u64
        }
    }
}

/// Executable counterpart of [`srem64_spec`].
pub fn srem64(a: u64, b: u64) -> (r: u64)
    ensures
        r == srem64_spec(a, b),
{
    if b == 0 {
        return a;
    }
    if a == 0x8000_0000_0000_0000 && b == 0xFFFF_FFFF_FFFF_FFFF {
        return 0;
    }
    let na = abs64(a);
    let nb = abs64(b);
    let m = na % nb;
    let aneg = a >= 0x8000_0000_0000_0000;
    if !aneg {
        m
    } else if m == 0 {
        0
    } else {
        (u64::MAX - m) + 1
    }
}

/// Sign-extending an immediate and reading it back as two's complement
/// returns the immediate.
pub proof fn lemma_sig_sext_i32(x: i32)
    ensures
        sig64(sext_i32_64(x)) == x as int,
{
}

/// The upper 64 bits of the unsigned 128-bit product of two 64-bit words.
pub open spec fn mulh_u64(a: u64, b: u64) -> u64 {
    ((((a as u128) * (b as u128)) as u128) >> 64) as u64
}

/// Executable counterpart of [`mulh_u64`].
pub fn mulh64(a: u64, b: u64) -> (r: u64)
    ensures
        r == mulh_u64(a, b),
{
    proof {
        assert((a as u128) * (b as u128) < 0x1_00000000_00000000_00000000_00000000)
            by (nonlinear_arith)
            requires
                a <= 0xFFFF_FFFF_FFFF_FFFFu64 && b <= 0xFFFF_FFFF_FFFF_FFFFu64,
        ;
    }
    let p: u128 = (a as u128) * (b as u128);
    proof {
        assert(p >> 64 < 0x1_0000_0000_0000_0000u128) by (bit_vector);
    }
    (p >> 64) as u64
}

} // verus!
