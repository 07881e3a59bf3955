//! Bit-level building blocks: instruction field extraction, immediate
//! reconstruction for the I/S/B/U/J formats, sign extension, and
//! wrapping 32-bit arithmetic.

use vstd::prelude::*;

verus! {

// ---------------------------------------------------------------------------
// Wrapping 32-bit arithmetic
// ---------------------------------------------------------------------------

/// The sum of two 32-bit words, modulo 2^32.
pub open spec fn wadd(a: u32, b: u32) -> u32 {
    a.wrapping_add(b)
}

/// The difference of two 32-bit words, modulo 2^32.
pub open spec fn wsub(a: u32, b: u32) -> u32 {
    a.wrapping_sub(b)
}

/// The two's-complement value of a 32-bit word, as a mathematical integer.
pub open spec fn signed(x: u32) -> int {
    if x >= 0x8000_0000 {
        x - 0x1_0000_0000
    } else {
        x as int
    }
}

/// Signed comparison of two 32-bit words.
pub open spec fn slt(a: u32, b: u32) -> bool {
    signed(a) < signed(b)
}

/// Arithmetic right shift of a 32-bit word: the vacated high bits are
/// copies of the sign bit.
pub open spec fn sra(x: u32, sh: u32) -> u32
    recommends
        sh < 32,
{
    if x >= 0x8000_0000 {
        !((!x) >> sh)
    } else {
        x >> sh
    }
}

/// Signed comparison as executable code.
pub fn signed_lt(a: u32, b: u32) -> (r: bool)
    ensures
        r == slt(a, b),
{
    if (a >= 0x8000_0000) == (b >= 0x8000_0000) {
        a < b
    } else {
        a >= 0x8000_0000
    }
}

/// Arithmetic right shift as executable code.
pub fn shift_right_arith(x: u32, sh: u32) -> (r: u32)
    requires
        sh < 32,
    ensures
        r == sra(x, sh),
{
    if x >= 0x8000_0000 {
        !((!x) >> sh)
    } else {
        x >> sh
    }
}

// ---------------------------------------------------------------------------
// Sign extension
// ---------------------------------------------------------------------------

/// Sign-extend a byte to 32 bits.
pub open spec fn sext8(b: u8) -> u32 {
    if b >= 0x80 {
        (b as u32) | 0xFFFF_FF00u32
    } else {
        b as u32
    }
}

/// Sign-extend a halfword to 32 bits.
pub open spec fn sext16(h: u16) -> u32 {
    if h >= 0x8000 {
        (h as u32) | 0xFFFF_0000u32
    } else {
        h as u32
    }
}

/// Sign-extend a 12-bit field (held in the low bits of a word) to 32 bits.
pub open spec fn sext12(x: u32) -> u32
    recommends
        x < 0x1000,
{
    if x & 0x800 != 0 {
        x | 0xFFFF_F000u32
    } else {
        x
    }
}

/// Sign-extend a 13-bit field to 32 bits.
pub open spec fn sext13(x: u32) -> u32
    recommends
        x < 0x2000,
{
    if x & 0x1000 != 0 {
        x | 0xFFFF_E000u32
    } else {
        x
    }
}

/// Sign-extend a 21-bit field to 32 bits.
pub open spec fn sext21(x: u32) -> u32
    recommends
        x < 0x20_0000,
{
    if x & 0x10_0000 != 0 {
        x | 0xFFE0_0000u32
    } else {
        x
    }
}

// ---------------------------------------------------------------------------
// Instruction fields
// ---------------------------------------------------------------------------

/// The 5-bit opcode-class selector, instruction bits [6:2].
pub open spec fn opcode_of(inst: u32) -> u32 {
    (inst >> 2) & 0x1F
}

/// funct3, instruction bits [14:12].
pub open spec fn funct3_of(inst: u32) -> u32 {
    (inst >> 12) & 0x7
}

/// funct7, instruction bits [31:25].
pub open spec fn funct7_of(inst: u32) -> u32 {
    (inst >> 25) & 0x7F
}

/// The 12-bit system/CSR function field, instruction bits [31:20].
pub open spec fn funct12_of(inst: u32) -> u32 {
    inst >> 20
}

/// The destination register index, instruction bits [11:7].
pub open spec fn rd_of(inst: u32) -> u32 {
    (inst >> 7) & 0x1F
}

/// The first source register index, instruction bits [19:15].
pub open spec fn rs1_of(inst: u32) -> u32 {
    (inst >> 15) & 0x1F
}

/// The second source register index, instruction bits [24:20].
pub open spec fn rs2_of(inst: u32) -> u32 {
    (inst >> 20) & 0x1F
}

/// Bounds on every extracted field, so that register and CSR indices are
/// always in range and shift amounts are always below the word width.
pub proof fn lemma_field_bounds()
    by (bit_vector)
    ensures
        forall|x: u32| #[trigger] (x & 0x1F) < 32,
        forall|x: u32| #[trigger] (x & 0x7) < 8,
        forall|x: u32| #[trigger] (x >> 20) < 4096,
        forall|x: u32| #[trigger] (x & 0x7F) < 128,
{
}

// ---------------------------------------------------------------------------
// Immediate reconstruction
// ---------------------------------------------------------------------------

/// I-type immediate: instruction bits [31:20], sign-extended.
pub open spec fn imm_i(inst: u32) -> u32 {
    sext12(inst >> 20)
}

/// S-type immediate: bits [31:25] over bits [11:7], sign-extended.
pub open spec fn imm_s(inst: u32) -> u32 {
    sext12(((inst >> 25) << 5) | ((inst >> 7) & 0x1F))
}

/// B-type immediate: bit 12 from instruction bit 31, bit 11 from bit 7,
/// bits [10:5] from bits [30:25], bits [4:1] from bits [11:8]; bit 0 is
/// always 0; sign-extended from bit 12.
pub open spec fn imm_b(inst: u32) -> u32 {
    sext13(
        (((inst >> 31) & 1) << 12) | (((inst >> 7) & 1) << 11) | (((inst >> 25) & 0x3F) << 5) | ((
        (inst >> 8) & 0xF) << 1),
    )
}

/// U-type immediate: instruction bits [31:12], low 12 bits zero.
pub open spec fn imm_u(inst: u32) -> u32 {
    inst & 0xFFFF_F000
}

/// J-type immediate: bit 20 from instruction bit 31, bits [19:12] in place,
/// bit 11 from bit 20, bits [10:1] from bits [30:21]; bit 0 is always 0;
/// sign-extended from bit 20.
pub open spec fn imm_j(inst: u32) -> u32 {
    sext21(
        (((inst >> 31) & 1) << 20) | (inst & 0xF_F000) | (((inst >> 20) & 1) << 11) | (((inst >> 21)
            & 0x3FF) << 1),
    )
}

/// Reconstruct the I-type immediate of an instruction word.
pub fn read_imm_i(inst: u32) -> (r: u32)
    ensures
        r == imm_i(inst),
{
    let field = inst >> 20;
    if field & 0x800 != 0 {
        field | 0xFFFF_F000
    } else {
        field
    }
}

/// Reconstruct the S-type immediate of an instruction word.
pub fn read_imm_s(inst: u32) -> (r: u32)
    ensures
        r == imm_s(inst),
{
    let field = ((inst >> 25) << 5) | ((inst >> 7) & 0x1F);
    if field & 0x800 != 0 {
        field | 0xFFFF_F000
    } else {
        field
    }
}

/// Reconstruct the B-type immediate of an instruction word.
pub fn read_imm_b(inst: u32) -> (r: u32)
    ensures
        r == imm_b(inst),
{
    let field = (((inst >> 31) & 1) << 12) | (((inst >> 7) & 1) << 11) | (((inst >> 25) & 0x3F)
        << 5) | (((inst >> 8) & 0xF) << 1);
    if field & 0x1000 != 0 {
        field | 0xFFFF_E000
    } else {
        field
    }
}

/// Reconstruct the U-type immediate of an instruction word.
pub fn read_imm_u(inst: u32) -> (r: u32)
    ensures
        r == imm_u(inst),
{
    inst & 0xFFFF_F000
}

/// Reconstruct the J-type immediate of an instruction word.
pub fn read_imm_j(inst: u32) -> (r: u32)
    ensures
        r == imm_j(inst),
{
    let field = (((inst >> 31) & 1) << 20) | (inst & 0xF_F000) | (((inst >> 20) & 1) << 11) | ((
    (inst >> 21) & 0x3FF) << 1);
    if field & 0x10_0000 != 0 {
        field | 0xFFE0_0000
    } else {
        field
    }
}

} // verus!
