//! The core: register file, CSR file, program counter and cycle counter,
//! together with the fetch-decode-execute-retire step.
//!
//! `spec_step` is the mathematical transition function of the core: it maps
//! a machine state to the outcome of one step and the state after it.
//! `Core::step` is the executable engine, proved to implement `spec_step`
//! exactly.

use vstd::prelude::*;

use crate::bits::{
    funct12_of, funct3_of, funct7_of, imm_b, imm_i, imm_j, imm_s, imm_u, lemma_field_bounds,
    opcode_of, rd_of, read_imm_b, read_imm_i, read_imm_j, read_imm_s, read_imm_u, rs1_of, rs2_of,
    sext16, sext8, shift_right_arith, signed_lt, slt, sra, wadd, wsub,
};
use crate::mem::{
    byte_ok, half_ok, read_byte, read_half, read_word, word_ok, write_byte, write_half, write_word,
    Mem, MEMORY_SIZE,
};

verus! {

/// Number of general-purpose registers.
pub const REG_COUNT: usize = 32;

/// Number of control/status registers.
pub const CSR_COUNT: usize = 4096;

/// The physical base address: the program counter after a reset.
pub const RESET_PC: u32 = 0x8000_0000;

/// What one step of the engine produced.
#[derive(Clone, Copy, Debug, PartialEq, Eq, Structural)]
pub enum StepOutcome {
    /// The instruction retired: pc, cycle counter and architectural state
    /// were committed.
    Retired,
    /// EBREAK: the debug-halt protocol. The state is left untouched so the
    /// embedder can dump it and terminate.
    Ebreak,
    /// ECALL has no implemented semantics; the step is refused.
    EcallUnimplemented,
    /// A recognized Load/Store/Branch instruction with an unrecognized
    /// funct3: the step aborts with no state change, and the engine would
    /// refetch the same instruction forever.
    Stall,
    /// The instruction's bit pattern maps to no opcode class: fatal.
    DecodeFault,
    /// A recognized opcode class with an unrecognized funct3/funct7
    /// combination under System or Amo: fatal.
    InstructionFault,
    /// A mapped address beyond the backing store was touched by the fetch,
    /// a load, a store or an atomic: fatal.
    MemoryFault,
}

/// The mathematical state of the core.
#[verifier::ext_equal]
pub struct CoreModel {
    /// The physical backing store.
    pub mem: Seq<u8>,
    /// The 4096 control/status registers.
    pub csrs: Seq<u32>,
    /// The 32 general-purpose registers.
    pub reg: Seq<u32>,
    /// The program counter.
    pub pc: u32,
    /// Count of retired instructions.
    pub cycle: nat,
}

impl CoreModel {
    /// Shape of a valid state: full-size stores and x0 reading as zero.
    pub open spec fn wf(self) -> bool {
        &&& self.mem.len() == MEMORY_SIZE
        &&& self.csrs.len() == CSR_COUNT
        &&& self.reg.len() == REG_COUNT
        &&& self.reg[0] == 0u32
    }
}

// ---------------------------------------------------------------------------
// One-step transition function
// ---------------------------------------------------------------------------

/// Commit a step that wrote register `rd`: the write lands, then x0 is
/// forced back to zero, the pc moves to `pc`, and the cycle counter ticks.
pub open spec fn retire_reg(s: CoreModel, rd: u32, val: u32, pc: u32) -> CoreModel {
    CoreModel {
        mem: s.mem,
        csrs: s.csrs,
        reg: s.reg.update(rd as int, val).update(0, 0u32),
        pc,
        cycle: s.cycle + 1,
    }
}

/// Commit a step that wrote no register.
pub open spec fn retire_plain(s: CoreModel, pc: u32) -> CoreModel {
    CoreModel { mem: s.mem, csrs: s.csrs, reg: s.reg.update(0, 0u32), pc, cycle: s.cycle + 1 }
}

/// Commit a step that wrote memory and register `rd`.
pub open spec fn retire_mem_reg(s: CoreModel, mem: Seq<u8>, rd: u32, val: u32, pc: u32) -> CoreModel {
    CoreModel {
        mem,
        csrs: s.csrs,
        reg: s.reg.update(rd as int, val).update(0, 0u32),
        pc,
        cycle: s.cycle + 1,
    }
}

/// Commit a step that wrote memory and no register.
pub open spec fn retire_mem(s: CoreModel, mem: Seq<u8>, pc: u32) -> CoreModel {
    CoreModel { mem, csrs: s.csrs, reg: s.reg.update(0, 0u32), pc, cycle: s.cycle + 1 }
}

/// A Load step: address rs1 + I-immediate; funct3 selects width and
/// extension. An unrecognized funct3 stalls; an out-of-range mapped
/// address faults.
pub open spec fn spec_load(s: CoreModel, inst: u32) -> (StepOutcome, CoreModel) {
    let addr = wadd(s.reg[rs1_of(inst) as int], imm_i(inst));
    let f3 = funct3_of(inst);
    let pc = wadd(s.pc, 4);
    if f3 == 0 {
        if byte_ok(addr) {
            (StepOutcome::Retired, retire_reg(s, rd_of(inst), sext8(read_byte(s.mem, addr)), pc))
        } else {
            (StepOutcome::MemoryFault, s)
        }
    } else if f3 == 1 {
        if half_ok(addr) {
            (StepOutcome::Retired, retire_reg(s, rd_of(inst), sext16(read_half(s.mem, addr)), pc))
        } else {
            (StepOutcome::MemoryFault, s)
        }
    } else if f3 == 2 {
        if word_ok(addr) {
            (StepOutcome::Retired, retire_reg(s, rd_of(inst), read_word(s.mem, addr), pc))
        } else {
            (StepOutcome::MemoryFault, s)
        }
    } else if f3 == 4 {
        if byte_ok(addr) {
            (StepOutcome::Retired, retire_reg(s, rd_of(inst), read_byte(s.mem, addr) as u32, pc))
        } else {
            (StepOutcome::MemoryFault, s)
        }
    } else if f3 == 5 {
        if half_ok(addr) {
            (StepOutcome::Retired, retire_reg(s, rd_of(inst), read_half(s.mem, addr) as u32, pc))
        } else {
            (StepOutcome::MemoryFault, s)
        }
    } else {
        (StepOutcome::Stall, s)
    }
}

/// A Store step: address rs1 + S-immediate; funct3 selects the width.
pub open spec fn spec_store(s: CoreModel, inst: u32) -> (StepOutcome, CoreModel) {
    let addr = wadd(s.reg[rs1_of(inst) as int], imm_s(inst));
    let rs2 = s.reg[rs2_of(inst) as int];
    let f3 = funct3_of(inst);
    let pc = wadd(s.pc, 4);
    if f3 == 0 {
        if byte_ok(addr) {
            (StepOutcome::Retired, retire_mem(s, write_byte(s.mem, addr, rs2 as u8), pc))
        } else {
            (StepOutcome::MemoryFault, s)
        }
    } else if f3 == 1 {
        if half_ok(addr) {
            (StepOutcome::Retired, retire_mem(s, write_half(s.mem, addr, rs2 as u16), pc))
        } else {
            (StepOutcome::MemoryFault, s)
        }
    } else if f3 == 2 {
        if word_ok(addr) {
            (StepOutcome::Retired, retire_mem(s, write_word(s.mem, addr, rs2), pc))
        } else {
            (StepOutcome::MemoryFault, s)
        }
    } else {
        (StepOutcome::Stall, s)
    }
}

/// Whether a Branch condition holds, by funct3. Outside the six recognized
/// conditions the result is meaningless; `spec_branch` stalls there.
pub open spec fn branch_taken(rs1: u32, rs2: u32, f3: u32) -> bool {
    if f3 == 0 {
        rs1 == rs2
    } else if f3 == 1 {
        rs1 != rs2
    } else if f3 == 4 {
        slt(rs1, rs2)
    } else if f3 == 5 {
        !slt(rs1, rs2)
    } else if f3 == 6 {
        rs1 < rs2
    } else {
        rs1 >= rs2
    }
}

/// A Branch step: taken adds the B-immediate to pc, not taken adds 4.
pub open spec fn spec_branch(s: CoreModel, inst: u32) -> (StepOutcome, CoreModel) {
    let rs1 = s.reg[rs1_of(inst) as int];
    let rs2 = s.reg[rs2_of(inst) as int];
    let f3 = funct3_of(inst);
    if f3 == 2 || f3 == 3 {
        (StepOutcome::Stall, s)
    } else {
        let pc = if branch_taken(rs1, rs2, f3) {
            wadd(s.pc, imm_b(inst))
        } else {
            wadd(s.pc, 4)
        };
        (StepOutcome::Retired, retire_plain(s, pc))
    }
}

/// A Jalr step: rd receives pc + 4; the target is rs1 plus the I-immediate
/// with its low bit cleared.
pub open spec fn spec_jalr(s: CoreModel, inst: u32) -> (StepOutcome, CoreModel) {
    let target = wadd(s.reg[rs1_of(inst) as int], imm_i(inst) & 0xFFFF_FFFEu32);
    (StepOutcome::Retired, retire_reg(s, rd_of(inst), wadd(s.pc, 4), target))
}

/// A Jal step: rd receives pc + 4; the J-immediate is added to pc.
pub open spec fn spec_jal(s: CoreModel, inst: u32) -> (StepOutcome, CoreModel) {
    (StepOutcome::Retired, retire_reg(s, rd_of(inst), wadd(s.pc, 4), wadd(s.pc, imm_j(inst))))
}

/// The shared ALU of OpImm and Op. `b` is the immediate or rs2; `sub` asks
/// for subtraction at funct3 0; `arith` selects the arithmetic right shift
/// at funct3 5.
pub open spec fn alu(a: u32, b: u32, f3: u32, sub: bool, arith: bool) -> u32 {
    if f3 == 0 {
        if sub {
            wsub(a, b)
        } else {
            wadd(a, b)
        }
    } else if f3 == 1 {
        a << (b & 0x1F)
    } else if f3 == 2 {
        if slt(a, b) {
            1u32
        } else {
            0u32
        }
    } else if f3 == 3 {
        if a < b {
            1u32
        } else {
            0u32
        }
    } else if f3 == 4 {
        a ^ b
    } else if f3 == 5 {
        if arith {
            sra(a, b & 0x1F)
        } else {
            a >> (b & 0x1F)
        }
    } else if f3 == 6 {
        a | b
    } else {
        a & b
    }
}

/// An OpImm step: the ALU on rs1 and the I-immediate. There is no
/// subtraction; immediate bit 10 selects the arithmetic right shift.
pub open spec fn spec_op_imm(s: CoreModel, inst: u32) -> (StepOutcome, CoreModel) {
    let imm = imm_i(inst);
    let val = alu(s.reg[rs1_of(inst) as int], imm, funct3_of(inst), false, imm & 0x400 != 0);
    (StepOutcome::Retired, retire_reg(s, rd_of(inst), val, wadd(s.pc, 4)))
}

/// An Op step: the ALU on rs1 and rs2; funct7 bit 5 selects subtraction at
/// funct3 0 and the arithmetic right shift at funct3 5.
pub open spec fn spec_op(s: CoreModel, inst: u32) -> (StepOutcome, CoreModel) {
    let alt = funct7_of(inst) & 0x20 != 0;
    let val = alu(
        s.reg[rs1_of(inst) as int],
        s.reg[rs2_of(inst) as int],
        funct3_of(inst),
        alt,
        alt,
    );
    (StepOutcome::Retired, retire_reg(s, rd_of(inst), val, wadd(s.pc, 4)))
}

/// A MiscMem (fence) step: nothing to order with one hart; pc advances.
pub open spec fn spec_misc_mem(s: CoreModel, inst: u32) -> (StepOutcome, CoreModel) {
    (StepOutcome::Retired, retire_plain(s, wadd(s.pc, 4)))
}

/// The written-back CSR value: funct3 selects replace, set-bits or
/// clear-bits, with a register or zero-extended-immediate operand.
pub open spec fn csr_new_value(old_csr: u32, operand: u32, f3: u32) -> u32 {
    if f3 == 1 || f3 == 5 {
        operand
    } else if f3 == 2 || f3 == 6 {
        old_csr | operand
    } else {
        old_csr & !operand
    }
}

/// A System step. funct3 0 routes on the 12-bit function field: ECALL is
/// unimplemented, EBREAK halts, anything else is fatal. funct3 1-3 and 5-7
/// are the CSR forms: the old CSR value goes to rd first, then the CSR is
/// updated. funct3 4 is fatal.
pub open spec fn spec_system(s: CoreModel, inst: u32) -> (StepOutcome, CoreModel) {
    let f3 = funct3_of(inst);
    let f12 = funct12_of(inst);
    if f3 == 0 {
        if f12 == 0 {
            (StepOutcome::EcallUnimplemented, s)
        } else if f12 == 1 {
            (StepOutcome::Ebreak, s)
        } else {
            (StepOutcome::InstructionFault, s)
        }
    } else if f3 == 4 {
        (StepOutcome::InstructionFault, s)
    } else {
        let operand = if f3 >= 5 {
            rs1_of(inst)
        } else {
            s.reg[rs1_of(inst) as int]
        };
        let old_csr = s.csrs[f12 as int];
        let next = CoreModel {
            mem: s.mem,
            csrs: s.csrs.update(f12 as int, csr_new_value(old_csr, operand, f3)),
            reg: s.reg.update(rd_of(inst) as int, old_csr).update(0, 0u32),
            pc: wadd(s.pc, 4),
            cycle: s.cycle + 1,
        };
        (StepOutcome::Retired, next)
    }
}

/// An Auipc step: rd receives pc plus the U-immediate.
pub open spec fn spec_auipc(s: CoreModel, inst: u32) -> (StepOutcome, CoreModel) {
    (StepOutcome::Retired, retire_reg(s, rd_of(inst), wadd(s.pc, imm_u(inst)), wadd(s.pc, 4)))
}

/// A Lui step: rd receives the U-immediate.
pub open spec fn spec_lui(s: CoreModel, inst: u32) -> (StepOutcome, CoreModel) {
    (StepOutcome::Retired, retire_reg(s, rd_of(inst), imm_u(inst), wadd(s.pc, 4)))
}

/// The modified word of the arithmetic/logical atomic family, selected by
/// funct7 shifted right by 2.
pub open spec fn amo_alu(temp: u32, rs2: u32, sub: u32) -> u32 {
    if sub == 0x00 {
        wadd(temp, rs2)
    } else if sub == 0x04 {
        temp ^ rs2
    } else if sub == 0x0C {
        temp & rs2
    } else if sub == 0x08 {
        temp | rs2
    } else if sub == 0x10 {
        if slt(rs2, temp) {
            rs2
        } else {
            temp
        }
    } else if sub == 0x14 {
        if slt(temp, rs2) {
            rs2
        } else {
            temp
        }
    } else if sub == 0x18 {
        if rs2 < temp {
            rs2
        } else {
            temp
        }
    } else {
        if temp < rs2 {
            rs2
        } else {
            temp
        }
    }
}

/// Whether the funct7 subtype field names an arithmetic/logical atomic.
pub open spec fn amo_alu_sub(sub: u32) -> bool {
    sub == 0x00 || sub == 0x04 || sub == 0x0C || sub == 0x08 || sub == 0x10 || sub == 0x14 || sub
        == 0x18 || sub == 0x1C
}

/// An Amo step, word granularity only (funct3 must be 2, else fatal). The
/// address is rs1's value. Load-reserved is a plain load; store-conditional
/// is a plain store with rd reporting success (0); swap and the
/// arithmetic/logical family read the old word into rd and write back in
/// one indivisible step.
pub open spec fn spec_amo(s: CoreModel, inst: u32) -> (StepOutcome, CoreModel) {
    let f3 = funct3_of(inst);
    let addr = s.reg[rs1_of(inst) as int];
    let rs2 = s.reg[rs2_of(inst) as int];
    let rd = rd_of(inst);
    let sub = funct7_of(inst) >> 2;
    let pc = wadd(s.pc, 4);
    if f3 != 2 {
        (StepOutcome::InstructionFault, s)
    } else if !(sub == 0x02 || sub == 0x03 || sub == 0x01 || amo_alu_sub(sub)) {
        (StepOutcome::InstructionFault, s)
    } else if !word_ok(addr) {
        (StepOutcome::MemoryFault, s)
    } else if sub == 0x02 {
        (StepOutcome::Retired, retire_reg(s, rd, read_word(s.mem, addr), pc))
    } else if sub == 0x03 {
        (StepOutcome::Retired, retire_mem_reg(s, write_word(s.mem, addr, rs2), rd, 0u32, pc))
    } else if sub == 0x01 {
        (
            StepOutcome::Retired,
            retire_mem_reg(s, write_word(s.mem, addr, rs2), rd, read_word(s.mem, addr), pc),
        )
    } else {
        let temp = read_word(s.mem, addr);
        (
            StepOutcome::Retired,
            retire_mem_reg(s, write_word(s.mem, addr, amo_alu(temp, rs2, sub)), rd, temp, pc),
        )
    }
}

/// One step of the core: fetch the word at pc, decode its opcode class and
/// dispatch. An unmapped pc silently fetches the instruction word 0, a
/// defined but likely nonsensical hazard; a mapped pc beyond the backing
/// store is a memory fault.
pub open spec fn spec_step(s: CoreModel) -> (StepOutcome, CoreModel) {
    if !word_ok(s.pc) {
        (StepOutcome::MemoryFault, s)
    } else {
        let inst = read_word(s.mem, s.pc);
        let op = opcode_of(inst);
        if op == 0x00 {
            spec_load(s, inst)
        } else if op == 0x08 {
            spec_store(s, inst)
        } else if op == 0x18 {
            spec_branch(s, inst)
        } else if op == 0x19 {
            spec_jalr(s, inst)
        } else if op == 0x1B {
            spec_jal(s, inst)
        } else if op == 0x03 {
            spec_misc_mem(s, inst)
        } else if op == 0x04 {
            spec_op_imm(s, inst)
        } else if op == 0x0C {
            spec_op(s, inst)
        } else if op == 0x1C {
            spec_system(s, inst)
        } else if op == 0x05 {
            spec_auipc(s, inst)
        } else if op == 0x0D {
            spec_lui(s, inst)
        } else if op == 0x0B {
            spec_amo(s, inst)
        } else {
            (StepOutcome::DecodeFault, s)
        }
    }
}

/// Repeated stepping with bounded fuel: stop at the first step whose
/// outcome is not `Retired` and report it, or report `None` when the fuel
/// is spent with every step retired.
pub open spec fn spec_run(s: CoreModel, fuel: nat) -> (Option<StepOutcome>, CoreModel)
    decreases fuel,
{
    if fuel == 0 {
        (None::<StepOutcome>, s)
    } else {
        let (o, s2) = spec_step(s);
        if o == StepOutcome::Retired {
            spec_run(s2, (fuel - 1) as nat)
        } else {
            (Some(o), s2)
        }
    }
}

/// Frame facts about one step: a step preserves well-formedness, a retired
/// step ticks the cycle counter by exactly one, and any other outcome
/// leaves the state untouched.
pub proof fn lemma_step_frame(s: CoreModel)
    requires
        s.wf(),
    ensures
        spec_step(s).1.wf(),
        spec_step(s).0 == StepOutcome::Retired ==> spec_step(s).1.cycle == s.cycle + 1,
        spec_step(s).0 != StepOutcome::Retired ==> spec_step(s).1 == s,
{
    lemma_field_bounds();
}

// ---------------------------------------------------------------------------
// The executable core
// ---------------------------------------------------------------------------

/// The core: one engine instance owns its register file, CSR file, memory,
/// program counter and cycle counter.
pub struct Core {
    /// The memory subsystem.
    pub mem: Mem,
    /// The 4096 control/status registers.
    pub csrs: Vec<u32>,
    /// The 32 general-purpose registers.
    pub reg: Vec<u32>,
    /// The program counter.
    pub pc: u32,
    /// Count of retired instructions.
    pub cycle_count: usize,
}

impl View for Core {
    type V = CoreModel;

    open spec fn view(&self) -> CoreModel {
        CoreModel {
            mem: self.mem@,
            csrs: self.csrs@,
            reg: self.reg@,
            pc: self.pc,
            cycle: self.cycle_count as nat,
        }
    }
}

/// A vector of `n` zeroed words.
fn zero_words(n: usize) -> (v: Vec<u32>)
    ensures
        v@ == Seq::new(n as nat, |i: int| 0u32),
{
    let mut v: Vec<u32> = Vec::with_capacity(n);
    let mut i: usize = 0;
    while i < n
        invariant
            i <= n,
            v@.len() == i,
            forall|j: int| 0 <= j < i ==> v@[j] == 0u32,
        decreases n - i,
    {
        v.push(0u32);
        i = i + 1;
    }
    proof {
        assert(v@ =~= Seq::new(n as nat, |i: int| 0u32));
    }
    v
}

impl Core {
    /// A core at the reset state: everything zeroed, the pc at the physical
    /// base address.
    pub fn new() -> (r: Core)
        ensures
            r@.wf(),
            r@ == (CoreModel {
                mem: Seq::new(MEMORY_SIZE as nat, |i: int| 0u8),
                csrs: Seq::new(CSR_COUNT as nat, |i: int| 0u32),
                reg: Seq::new(REG_COUNT as nat, |i: int| 0u32),
                pc: RESET_PC,
                cycle: 0nat,
            }),
    {
        Core {
            mem: Mem::new(),
            csrs: zero_words(CSR_COUNT),
            reg: zero_words(REG_COUNT),
            pc: RESET_PC,
            cycle_count: 0,
        }
    }

    /// Zero the register file and return the pc to the base address. Memory,
    /// the CSR file and the cycle counter keep their contents.
    pub fn reset(&mut self)
        ensures
            final(self)@ == (CoreModel {
                mem: old(self)@.mem,
                csrs: old(self)@.csrs,
                reg: Seq::new(REG_COUNT as nat, |i: int| 0u32),
                pc: RESET_PC,
                cycle: old(self)@.cycle,
            }),
            old(self)@.wf() ==> final(self)@.wf(),
    {
        self.reg = zero_words(REG_COUNT);
        self.pc = RESET_PC;
    }

    /// Install a raw machine-code image: the bytes land at offset 0 of
    /// physical memory, the remainder of the backing store is zero-padded,
    /// and the core is reset.
    pub fn load_image(&mut self, data: Vec<u8>)
        requires
            data@.len() <= MEMORY_SIZE,
        ensures
            final(self)@ == (CoreModel {
                mem: data@ + Seq::new((MEMORY_SIZE - data@.len()) as nat, |i: int| 0u8),
                csrs: old(self)@.csrs,
                reg: Seq::new(REG_COUNT as nat, |i: int| 0u32),
                pc: RESET_PC,
                cycle: old(self)@.cycle,
            }),
            old(self)@.csrs.len() == CSR_COUNT ==> final(self)@.wf(),
    {
        self.reset();
        let mut padded = data;
        let ghost image = padded@;
        while padded.len() < MEMORY_SIZE
            invariant
                image.len() <= padded@.len() <= MEMORY_SIZE,
                padded@.subrange(0, image.len() as int) == image,
                forall|j: int| image.len() <= j < padded@.len() ==> padded@[j] == 0u8,
            decreases MEMORY_SIZE - padded@.len(),
        {
            padded.push(0u8);
        }
        proof {
            assert(padded@ =~= image + Seq::new((MEMORY_SIZE - image.len()) as nat, |i: int| 0u8));
        }
        self.mem = Mem::from_contents(padded);
    }

    /// The shared ALU of OpImm and Op.
    fn alu_exec(a: u32, b: u32, f3: u32, sub: bool, arith: bool) -> (r: u32)
        ensures
            r == alu(a, b, f3, sub, arith),
    {
        proof {
            lemma_field_bounds();
        }
        if f3 == 0 {
            if sub {
                a.wrapping_sub(b)
            } else {
                a.wrapping_add(b)
            }
        } else if f3 == 1 {
            a << (b & 0x1F)
        } else if f3 == 2 {
            if signed_lt(a, b) {
                1
            } else {
                0
            }
        } else if f3 == 3 {
            if a < b {
                1
            } else {
                0
            }
        } else if f3 == 4 {
            a ^ b
        } else if f3 == 5 {
            if arith {
                shift_right_arith(a, b & 0x1F)
            } else {
                a >> (b & 0x1F)
            }
        } else if f3 == 6 {
            a | b
        } else {
            a & b
        }
    }

    /// Commit a retired step: the destination register write lands, x0 is
    /// forced back to zero, the pc moves, the cycle counter ticks.
    fn commit_reg(&mut self, rd: u32, val: u32, pc: u32)
        requires
            old(self)@.wf(),
            old(self).cycle_count < usize::MAX,
            rd < 32,
        ensures
            final(self)@ == retire_reg(old(self)@, rd, val, pc),
            final(self).cycle_count == old(self).cycle_count + 1,
            final(self).mem == old(self).mem,
    {
        self.reg[rd as usize] = val;
        self.reg[0] = 0;
        self.pc = pc;
        self.cycle_count = self.cycle_count + 1;
    }

    /// Commit a retired step that wrote no register.
    fn commit_plain(&mut self, pc: u32)
        requires
            old(self)@.wf(),
            old(self).cycle_count < usize::MAX,
        ensures
            final(self)@ == retire_plain(old(self)@, pc),
            final(self).cycle_count == old(self).cycle_count + 1,
            final(self).mem == old(self).mem,
    {
        self.reg[0] = 0;
        self.pc = pc;
        self.cycle_count = self.cycle_count + 1;
    }

    /// Dispatch a Load instruction.
    fn exec_load(&mut self, inst: u32) -> (r: StepOutcome)
        requires
            old(self)@.wf(),
            old(self).cycle_count < usize::MAX,
        ensures
            r == spec_load(old(self)@, inst).0,
            final(self)@ == spec_load(old(self)@, inst).1,
    {
        proof {
            lemma_field_bounds();
        }
        let rs1 = self.reg[((inst >> 15) & 0x1F) as usize];
        let addr = rs1.wrapping_add(read_imm_i(inst));
        let f3 = (inst >> 12) & 0x7;
        let rd = (inst >> 7) & 0x1F;
        let val: u32;
        if f3 == 0 || f3 == 4 {
            match self.mem.lb(addr) {
                Some(b) => {
                    val = if f3 == 0 {
                        if b >= 0x80 {
                            (b as u32) | 0xFFFF_FF00
                        } else {
                            b as u32
                        }
                    } else {
                        b as u32
                    };
                },
                None => {
                    return StepOutcome::MemoryFault;
                },
            }
        } else if f3 == 1 || f3 == 5 {
            match self.mem.lh(addr) {
                Some(h) => {
                    val = if f3 == 1 {
                        if h >= 0x8000 {
                            (h as u32) | 0xFFFF_0000
                        } else {
                            h as u32
                        }
                    } else {
                        h as u32
                    };
                },
                None => {
                    return StepOutcome::MemoryFault;
                },
            }
        } else if f3 == 2 {
            match self.mem.lw(addr) {
                Some(w) => {
                    val = w;
                },
                None => {
                    return StepOutcome::MemoryFault;
                },
            }
        } else {
            return StepOutcome::Stall;
        }
        let pc = self.pc.wrapping_add(4);
        self.commit_reg(rd, val, pc);
        StepOutcome::Retired
    }

    /// Dispatch a Store instruction.
    fn exec_store(&mut self, inst: u32) -> (r: StepOutcome)
        requires
            old(self)@.wf(),
            old(self).cycle_count < usize::MAX,
        ensures
            r == spec_store(old(self)@, inst).0,
            final(self)@ == spec_store(old(self)@, inst).1,
    {
        proof {
            lemma_field_bounds();
        }
        let rs1 = self.reg[((inst >> 15) & 0x1F) as usize];
        let rs2 = self.reg[((inst >> 20) & 0x1F) as usize];
        let addr = rs1.wrapping_add(read_imm_s(inst));
        let f3 = (inst >> 12) & 0x7;
        let ok: bool;
        if f3 == 0 {
            ok = self.mem.sb(addr, rs2 as u8);
        } else if f3 == 1 {
            ok = self.mem.sh(addr, rs2 as u16);
        } else if f3 == 2 {
            ok = self.mem.sw(addr, rs2);
        } else {
            return StepOutcome::Stall;
        }
        if !ok {
            return StepOutcome::MemoryFault;
        }
        let pc = self.pc.wrapping_add(4);
        self.commit_plain(pc);
        StepOutcome::Retired
    }

    /// Dispatch a Branch instruction.
    fn exec_branch(&mut self, inst: u32) -> (r: StepOutcome)
        requires
            old(self)@.wf(),
            old(self).cycle_count < usize::MAX,
        ensures
            r == spec_branch(old(self)@, inst).0,
            final(self)@ == spec_branch(old(self)@, inst).1,
    {
        proof {
            lemma_field_bounds();
        }
        let rs1 = self.reg[((inst >> 15) & 0x1F) as usize];
        let rs2 = self.reg[((inst >> 20) & 0x1F) as usize];
        let f3 = (inst >> 12) & 0x7;
        let taken: bool;
        if f3 == 0 {
            taken = rs1 == rs2;
        } else if f3 == 1 {
            taken = rs1 != rs2;
        } else if f3 == 4 {
            taken = signed_lt(rs1, rs2);
        } else if f3 == 5 {
            taken = !signed_lt(rs1, rs2);
        } else if f3 == 6 {
            taken = rs1 < rs2;
        } else if f3 == 7 {
            taken = rs1 >= rs2;
        } else {
            return StepOutcome::Stall;
        }
        let pc = if taken {
            self.pc.wrapping_add(read_imm_b(inst))
        } else {
            self.pc.wrapping_add(4)
        };
        self.commit_plain(pc);
        StepOutcome::Retired
    }

    /// Dispatch a System instruction.
    fn exec_system(&mut self, inst: u32) -> (r: StepOutcome)
        requires
            old(self)@.wf(),
            old(self).cycle_count < usize::MAX,
        ensures
            r == spec_system(old(self)@, inst).0,
            final(self)@ == spec_system(old(self)@, inst).1,
    {
        proof {
            lemma_field_bounds();
        }
        let f3 = (inst >> 12) & 0x7;
        let f12 = inst >> 20;
        if f3 == 0 {
            if f12 == 0 {
                StepOutcome::EcallUnimplemented
            } else if f12 == 1 {
                StepOutcome::Ebreak
            } else {
                StepOutcome::InstructionFault
            }
        } else if f3 == 4 {
            StepOutcome::InstructionFault
        } else {
            let rs1_raw = (inst >> 15) & 0x1F;
            let operand = if f3 >= 5 {
                rs1_raw
            } else {
                self.reg[rs1_raw as usize]
            };
            let old_csr = self.csrs[f12 as usize];
            let newv = if f3 == 1 || f3 == 5 {
                operand
            } else if f3 == 2 || f3 == 6 {
                old_csr | operand
            } else {
                old_csr & !operand
            };
            self.csrs[f12 as usize] = newv;
            let rd = (inst >> 7) & 0x1F;
            self.reg[rd as usize] = old_csr;
            self.reg[0] = 0;
            self.pc = self.pc.wrapping_add(4);
            self.cycle_count = self.cycle_count + 1;
            StepOutcome::Retired
        }
    }

    /// Dispatch an Amo instruction.
    fn exec_amo(&mut self, inst: u32) -> (r: StepOutcome)
        requires
            old(self)@.wf(),
            old(self).cycle_count < usize::MAX,
        ensures
            r == spec_amo(old(self)@, inst).0,
            final(self)@ == spec_amo(old(self)@, inst).1,
    {
        proof {
            lemma_field_bounds();
        }
        let f3 = (inst >> 12) & 0x7;
        if f3 != 2 {
            return StepOutcome::InstructionFault;
        }
        let sub = ((inst >> 25) & 0x7F) >> 2;
        let is_alu = sub == 0x00 || sub == 0x04 || sub == 0x0C || sub == 0x08 || sub == 0x10 || sub
            == 0x14 || sub == 0x18 || sub == 0x1C;
        if !(sub == 0x02 || sub == 0x03 || sub == 0x01 || is_alu) {
            return StepOutcome::InstructionFault;
        }
        let addr = self.reg[((inst >> 15) & 0x1F) as usize];
        let rs2 = self.reg[((inst >> 20) & 0x1F) as usize];
        let rd = (inst >> 7) & 0x1F;
        let temp: u32;
        match self.mem.lw(addr) {
            Some(w) => {
                temp = w;
            },
            None => {
                return StepOutcome::MemoryFault;
            },
        }
        let pc = self.pc.wrapping_add(4);
        if sub == 0x02 {
            self.commit_reg(rd, temp, pc);
        } else if sub == 0x03 {
            self.mem.sw(addr, rs2);
            self.commit_reg(rd, 0, pc);
        } else if sub == 0x01 {
            self.mem.sw(addr, rs2);
            self.commit_reg(rd, temp, pc);
        } else {
            let newv = if sub == 0x00 {
                temp.wrapping_add(rs2)
            } else if sub == 0x04 {
                temp ^ rs2
            } else if sub == 0x0C {
                temp & rs2
            } else if sub == 0x08 {
                temp | rs2
            } else if sub == 0x10 {
                if signed_lt(rs2, temp) {
                    rs2
                } else {
                    temp
                }
            } else if sub == 0x14 {
                if signed_lt(temp, rs2) {
                    rs2
                } else {
                    temp
                }
            } else if sub == 0x18 {
                if rs2 < temp {
                    rs2
                } else {
                    temp
                }
            } else {
                if temp < rs2 {
                    rs2
                } else {
                    temp
                }
            };
            self.mem.sw(addr, newv);
            self.commit_reg(rd, temp, pc);
        }
        StepOutcome::Retired
    }

    /// One step: fetch the word at pc, decode and dispatch, retire. On any
    /// outcome but `Retired` the state is exactly as it was.
    pub fn step(&mut self) -> (r: StepOutcome)
        requires
            old(self)@.wf(),
            old(self).cycle_count < usize::MAX,
        ensures
            r == spec_step(old(self)@).0,
            final(self)@ == spec_step(old(self)@).1,
            final(self)@.wf(),
            r == StepOutcome::Retired ==> final(self).cycle_count == old(self).cycle_count + 1,
            r != StepOutcome::Retired ==> final(self)@ == old(self)@,
    {
        proof {
            lemma_step_frame(self@);
        }
        let inst: u32;
        match self.mem.lw(self.pc) {
            Some(w) => {
                inst = w;
            },
            None => {
                return StepOutcome::MemoryFault;
            },
        }
        let op = (inst >> 2) & 0x1F;
        if op == 0x00 {
            self.exec_load(inst)
        } else if op == 0x08 {
            self.exec_store(inst)
        } else if op == 0x18 {
            self.exec_branch(inst)
        } else if op == 0x19 {
            // Jalr: rd gets pc + 4, the pc the masked target.
            proof {
                lemma_field_bounds();
            }
            let rs1 = self.reg[((inst >> 15) & 0x1F) as usize];
            let rd = (inst >> 7) & 0x1F;
            let target = rs1.wrapping_add(read_imm_i(inst) & 0xFFFF_FFFE);
            let link = self.pc.wrapping_add(4);
            self.commit_reg(rd, link, target);
            StepOutcome::Retired
        } else if op == 0x1B {
            // Jal: rd gets pc + 4, the J-immediate is added to the pc.
            proof {
                lemma_field_bounds();
            }
            let rd = (inst >> 7) & 0x1F;
            let link = self.pc.wrapping_add(4);
            let target = self.pc.wrapping_add(read_imm_j(inst));
            self.commit_reg(rd, link, target);
            StepOutcome::Retired
        } else if op == 0x03 {
            // MiscMem (fence): nothing to order with a single hart.
            let pc = self.pc.wrapping_add(4);
            self.commit_plain(pc);
            StepOutcome::Retired
        } else if op == 0x04 {
            // OpImm: the ALU on rs1 and the I-immediate.
            proof {
                lemma_field_bounds();
            }
            let rs1 = self.reg[((inst >> 15) & 0x1F) as usize];
            let rd = (inst >> 7) & 0x1F;
            let f3 = (inst >> 12) & 0x7;
            let imm = read_imm_i(inst);
            let val = Self::alu_exec(rs1, imm, f3, false, imm & 0x400 != 0);
            let pc = self.pc.wrapping_add(4);
            self.commit_reg(rd, val, pc);
            StepOutcome::Retired
        } else if op == 0x0C {
            // Op: the ALU on rs1 and rs2.
            proof {
                lemma_field_bounds();
            }
            let rs1 = self.reg[((inst >> 15) & 0x1F) as usize];
            let rs2 = self.reg[((inst >> 20) & 0x1F) as usize];
            let rd = (inst >> 7) & 0x1F;
            let f3 = (inst >> 12) & 0x7;
            let alt = ((inst >> 25) & 0x7F) & 0x20 != 0;
            let val = Self::alu_exec(rs1, rs2, f3, alt, alt);
            let pc = self.pc.wrapping_add(4);
            self.commit_reg(rd, val, pc);
            StepOutcome::Retired
        } else if op == 0x1C {
            self.exec_system(inst)
        } else if op == 0x05 {
            // Auipc: rd gets pc plus the U-immediate.
            proof {
                lemma_field_bounds();
            }
            let rd = (inst >> 7) & 0x1F;
            let val = self.pc.wrapping_add(read_imm_u(inst));
            let pc = self.pc.wrapping_add(4);
            self.commit_reg(rd, val, pc);
            StepOutcome::Retired
        } else if op == 0x0D {
            // Lui: rd gets the U-immediate.
            proof {
                lemma_field_bounds();
            }
            let rd = (inst >> 7) & 0x1F;
            let val = read_imm_u(inst);
            let pc = self.pc.wrapping_add(4);
            self.commit_reg(rd, val, pc);
            StepOutcome::Retired
        } else if op == 0x0B {
            self.exec_amo(inst)
        } else {
            StepOutcome::DecodeFault
        }
    }

    /// Step at most `max_steps` times: stop at the first outcome that is
    /// not `Retired` and return it, or return `None` with every step
    /// retired and the fuel spent.
    pub fn run(&mut self, max_steps: usize) -> (r: Option<StepOutcome>)
        requires
            old(self)@.wf(),
            old(self).cycle_count + max_steps <= usize::MAX,
        ensures
            r == spec_run(old(self)@, max_steps as nat).0,
            final(self)@ == spec_run(old(self)@, max_steps as nat).1,
            final(self)@.wf(),
    {
        let ghost s0 = self@;
        let mut i: usize = 0;
        while i < max_steps
            invariant
                s0 == old(self)@,
                i <= max_steps,
                self@.wf(),
                self.cycle_count + (max_steps - i) <= usize::MAX,
                spec_run(s0, max_steps as nat) == spec_run(self@, (max_steps - i) as nat),
            decreases max_steps - i,
        {
            let ghost pre = self@;
            let o = self.step();
            proof {
                assert(spec_run(pre, (max_steps - i) as nat) == (if o == StepOutcome::Retired {
                    spec_run(self@, (max_steps - i - 1) as nat)
                } else {
                    (Some(o), self@)
                }));
            }
            if o != StepOutcome::Retired {
                return Some(o);
            }
            i = i + 1;
        }
        None
    }
}

} // verus!
