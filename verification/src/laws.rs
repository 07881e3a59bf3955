//! Laws of the core, stated once over the transition function and proved
//! for every state and instruction.

use vstd::prelude::*;

use crate::bits::{
    funct3_of, imm_b, imm_i, lemma_field_bounds, opcode_of, rd_of, rs1_of, rs2_of, sext13, wadd,
};
use crate::cpu::{lemma_step_frame, spec_run, spec_step, CoreModel, StepOutcome};
use crate::mem::{mapped, read_byte, read_word, word_ok, write_byte, write_word, MEMORY_SIZE};

verus! {

/// ADDI: for any instruction of the OpImm class with funct3 0, one step
/// retires, the destination register receives rs1 plus the sign-extended
/// 12-bit immediate (modulo 2^32), the pc advances by 4, and register 0
/// stays 0 even when the rd field encodes index 0.
pub proof fn lemma_addi_step(s: CoreModel, inst: u32)
    requires
        s.wf(),
        word_ok(s.pc),
        read_word(s.mem, s.pc) == inst,
        opcode_of(inst) == 0x04,
        funct3_of(inst) == 0,
    ensures
        spec_step(s).0 == StepOutcome::Retired,
        spec_step(s).1.pc == wadd(s.pc, 4),
        spec_step(s).1.reg[0] == 0u32,
        rd_of(inst) != 0 ==> spec_step(s).1.reg[rd_of(inst) as int] == wadd(
            s.reg[rs1_of(inst) as int],
            imm_i(inst),
        ),
    {
    lemma_field_bounds();
}

/// The B-type packing law: place the bits of a branch offset into the
/// immediate fields of an instruction word, all other bits zero. Bit 12 of
/// the offset lands in instruction bit 31, bit 11 in bit 7, bits [10:5] in
/// bits [30:25] and bits [4:1] in bits [11:8].
pub open spec fn pack_imm_b(imm: u32) -> u32 {
    (((imm >> 12) & 1) << 31) | (((imm >> 5) & 0x3F) << 25) | (((imm >> 1) & 0xF) << 8) | (((imm
        >> 11) & 1) << 7)
}

/// Round trip: every 13-bit signed value with low bit 0 (given here as its
/// sign-extended 32-bit form) survives B-type packing followed by
/// B-immediate reconstruction.
pub proof fn lemma_imm_b_round_trip(imm: u32)
    by (bit_vector)
    requires
        imm & 1 == 0,
        imm == sext13(imm & 0x1FFF),
    ensures
        imm_b(pack_imm_b(imm)) == imm,
{
}

/// Store/load round trip: a word store to a fault-free, fully mapped
/// address is read back bit for bit.
pub proof fn lemma_word_round_trip(m: Seq<u8>, addr: u32, v: u32)
    requires
        m.len() == MEMORY_SIZE,
        word_ok(addr),
        mapped(addr),
        mapped(wadd(addr, 1)),
        mapped(wadd(addr, 2)),
        mapped(wadd(addr, 3)),
    ensures
        read_word(write_word(m, addr, v), addr) == v,
{
    assert(addr + 3 <= u32::MAX) by {
        if addr + 3 > u32::MAX {
            assert(!mapped(wadd(addr, 3)));
        }
    }
    assert((((((v >> 24) as u8) as u32) << 24) | ((((v >> 16) as u8) as u32) << 16) | ((((v >> 8)
        as u8) as u32) << 8) | ((v as u8) as u32)) == v) by (bit_vector);
}

/// An unmapped address (bit 31 clear) reads as zero, and a store to it
/// leaves memory untouched.
pub proof fn lemma_unmapped_byte(m: Seq<u8>, addr: u32, v: u8)
    requires
        !mapped(addr),
    ensures
        read_byte(m, addr) == 0u8,
        write_byte(m, addr, v) == m,
{
}

/// BEQ: for any instruction of the Branch class with funct3 0, one step
/// retires; with equal source registers the B-immediate is added to the
/// pc, with unequal ones the pc advances by 4.
pub proof fn lemma_beq_step(s: CoreModel, inst: u32)
    requires
        s.wf(),
        word_ok(s.pc),
        read_word(s.mem, s.pc) == inst,
        opcode_of(inst) == 0x18,
        funct3_of(inst) == 0,
    ensures
        spec_step(s).0 == StepOutcome::Retired,
        s.reg[rs1_of(inst) as int] == s.reg[rs2_of(inst) as int] ==> spec_step(s).1.pc == wadd(
            s.pc,
            imm_b(inst),
        ),
        s.reg[rs1_of(inst) as int] != s.reg[rs2_of(inst) as int] ==> spec_step(s).1.pc == wadd(
            s.pc,
            4,
        ),
{
    lemma_field_bounds();
}

/// A step whose outcome is the debug halt leaves the whole state, the
/// cycle counter included, exactly as it was.
pub proof fn lemma_ebreak_preserves_state(s: CoreModel)
    requires
        s.wf(),
        spec_step(s).0 == StepOutcome::Ebreak,
    ensures
        spec_step(s).1 == s,
{
    lemma_step_frame(s);
}

/// A bounded run that spends all its fuel with every step retired grows
/// the cycle counter by exactly the number of steps, and keeps the state
/// well-formed either way.
pub proof fn lemma_run_counts_retired_steps(s: CoreModel, fuel: nat)
    requires
        s.wf(),
    ensures
        spec_run(s, fuel).1.wf(),
        spec_run(s, fuel).0 is None ==> spec_run(s, fuel).1.cycle == s.cycle + fuel,
    decreases fuel,
{
    if fuel != 0 {
        lemma_step_frame(s);
        let (o, s2) = spec_step(s);
        if o == StepOutcome::Retired {
            lemma_run_counts_retired_steps(s2, (fuel - 1) as nat);
        }
    }
}

/// EBREAK after exactly `n` retired steps reports a cycle count that grew
/// by exactly `n`: the debug halt itself does not tick the counter.
pub proof fn lemma_ebreak_reports_cycle_count(s: CoreModel, n: nat)
    requires
        s.wf(),
        spec_run(s, n).0 is None,
        spec_step(spec_run(s, n).1).0 == StepOutcome::Ebreak,
    ensures
        spec_step(spec_run(s, n).1).1.cycle == s.cycle + n,
{
    lemma_run_counts_retired_steps(s, n);
    lemma_step_frame(spec_run(s, n).1);
}

} // verus!
