use rv32sim::bits::{read_imm_b, read_imm_i, read_imm_j, read_imm_s, read_imm_u};
use rv32sim::cpu::{Core, StepOutcome};
use rv32sim::mem::{Mem, MEMORY_SIZE};

const BASE: u32 = 0x8000_0000;

fn enc_r(f7: u32, rs2: u32, rs1: u32, f3: u32, rd: u32, op: u32) -> u32 {
    (f7 << 25) | (rs2 << 20) | (rs1 << 15) | (f3 << 12) | (rd << 7) | op
}

fn enc_i(imm: u32, rs1: u32, f3: u32, rd: u32, op: u32) -> u32 {
    ((imm & 0xFFF) << 20) | (rs1 << 15) | (f3 << 12) | (rd << 7) | op
}

fn enc_s(imm: u32, rs2: u32, rs1: u32, f3: u32) -> u32 {
    (((imm >> 5) & 0x7F) << 25) | (rs2 << 20) | (rs1 << 15) | (f3 << 12) | ((imm & 0x1F) << 7)
        | 0x23
}

fn enc_b(imm: u32, rs2: u32, rs1: u32, f3: u32) -> u32 {
    (((imm >> 12) & 1) << 31) | (((imm >> 5) & 0x3F) << 25) | (rs2 << 20) | (rs1 << 15)
        | (f3 << 12) | (((imm >> 1) & 0xF) << 8) | (((imm >> 11) & 1) << 7) | 0x63
}

fn enc_j(imm: u32, rd: u32) -> u32 {
    (((imm >> 20) & 1) << 31) | (((imm >> 1) & 0x3FF) << 21) | (((imm >> 11) & 1) << 20)
        | (((imm >> 12) & 0xFF) << 12) | (rd << 7) | 0x6F
}

fn pack_b(imm: u32) -> u32 {
    enc_b(imm, 0, 0, 0)
}

fn load_prog(core: &mut Core, words: &[u32]) {
    let mut addr = BASE;
    for &w in words {
        assert!(core.mem.sw(addr, w));
        addr += 4;
    }
}

#[test]
fn addi_adds_signed_immediate() {
    let mut core = Core::new();
    core.reg[2] = 10;
    load_prog(&mut core, &[enc_i(5, 2, 0, 1, 0x13)]);
    assert_eq!(core.step(), StepOutcome::Retired);
    assert_eq!(core.reg[1], 15);
    assert_eq!(core.pc, BASE + 4);
    assert_eq!(core.cycle_count, 1);
    assert_eq!(core.reg[0], 0);
}

#[test]
fn addi_negative_immediate() {
    let mut core = Core::new();
    core.reg[2] = 10;
    load_prog(&mut core, &[enc_i(0xFFD, 2, 0, 1, 0x13)]); // imm == -3
    assert_eq!(core.step(), StepOutcome::Retired);
    assert_eq!(core.reg[1], 7);
}

#[test]
fn addi_to_x0_is_discarded() {
    let mut core = Core::new();
    core.reg[2] = 10;
    load_prog(&mut core, &[enc_i(5, 2, 0, 0, 0x13)]);
    assert_eq!(core.step(), StepOutcome::Retired);
    assert_eq!(core.reg[0], 0);
    assert_eq!(core.pc, BASE + 4);
}

#[test]
fn b_immediate_round_trip_examples() {
    // 13-bit signed, even offsets in their 32-bit sign-extended form
    for &imm in &[
        0u32,
        8,
        0xFFFF_FFF8, // -8
        4094,
        0xFFFF_F000, // -4096
        0x7FE,
    ] {
        assert_eq!(read_imm_b(pack_b(imm)), imm);
    }
}

#[test]
fn word_store_load_round_trip() {
    let mut m = Mem::new();
    assert!(m.sw(BASE, 0xDEAD_BEEF));
    assert_eq!(m.lw(BASE), Some(0xDEAD_BEEF));
}

#[test]
fn little_endian_byte_order() {
    let mut m = Mem::new();
    assert!(m.sw(BASE, 0x1234_5678));
    assert_eq!(m.lb(BASE), Some(0x78));
    assert_eq!(m.lb(BASE + 1), Some(0x56));
    assert_eq!(m.lb(BASE + 2), Some(0x34));
    assert_eq!(m.lb(BASE + 3), Some(0x12));
    assert!(m.sh(BASE + 8, 0xBEEF));
    assert_eq!(m.lb(BASE + 8), Some(0xEF));
    assert_eq!(m.lh(BASE + 8), Some(0xBEEF));
}

#[test]
fn byte_load_sign_and_zero_extension() {
    let mut core = Core::new();
    assert!(core.mem.sb(BASE + 0x100, 0xFF));
    core.reg[2] = BASE + 0x100;
    load_prog(
        &mut core,
        &[
            enc_i(0, 2, 0, 1, 0x03), // sign-extending byte load
            enc_i(0, 2, 4, 3, 0x03), // zero-extending byte load
        ],
    );
    assert_eq!(core.step(), StepOutcome::Retired);
    assert_eq!(core.reg[1], 0xFFFF_FFFF);
    assert_eq!(core.step(), StepOutcome::Retired);
    assert_eq!(core.reg[3], 0x0000_00FF);
}

#[test]
fn halfword_load_sign_extension() {
    let mut core = Core::new();
    assert!(core.mem.sh(BASE + 0x200, 0xBEEF));
    core.reg[2] = BASE + 0x200;
    load_prog(
        &mut core,
        &[
            enc_i(0, 2, 1, 1, 0x03), // sign-extending halfword load
            enc_i(0, 2, 5, 3, 0x03), // zero-extending halfword load
        ],
    );
    assert_eq!(core.step(), StepOutcome::Retired);
    assert_eq!(core.reg[1], 0xFFFF_BEEF);
    assert_eq!(core.step(), StepOutcome::Retired);
    assert_eq!(core.reg[3], 0x0000_BEEF);
}

#[test]
fn store_instructions_write_memory() {
    let mut core = Core::new();
    core.reg[2] = BASE + 0x300;
    core.reg[3] = 0xCAFE_BABE;
    load_prog(
        &mut core,
        &[
            enc_s(0, 3, 2, 2), // word store
            enc_s(4, 3, 2, 0), // byte store
            enc_s(6, 3, 2, 1), // halfword store
        ],
    );
    assert_eq!(core.step(), StepOutcome::Retired);
    assert_eq!(core.mem.lw(BASE + 0x300), Some(0xCAFE_BABE));
    assert_eq!(core.step(), StepOutcome::Retired);
    assert_eq!(core.mem.lb(BASE + 0x304), Some(0xBE));
    assert_eq!(core.step(), StepOutcome::Retired);
    assert_eq!(core.mem.lh(BASE + 0x306), Some(0xBABE));
}

#[test]
fn amoadd_returns_old_value_and_stores_sum() {
    let mut core = Core::new();
    assert!(core.mem.sw(BASE + 0x100, 5));
    core.reg[2] = BASE + 0x100;
    core.reg[3] = 3;
    load_prog(&mut core, &[enc_r(0x00, 3, 2, 2, 1, 0x2F)]);
    assert_eq!(core.step(), StepOutcome::Retired);
    assert_eq!(core.reg[1], 5);
    assert_eq!(core.mem.lw(BASE + 0x100), Some(8));
}

#[test]
fn amoswap_and_reservations() {
    let mut core = Core::new();
    assert!(core.mem.sw(BASE + 0x100, 7));
    core.reg[2] = BASE + 0x100;
    core.reg[3] = 9;
    load_prog(
        &mut core,
        &[
            enc_r(0x02 << 2, 0, 2, 2, 1, 0x2F), // load-reserved
            enc_r(0x03 << 2, 3, 2, 2, 4, 0x2F), // store-conditional
            enc_r(0x01 << 2, 5, 2, 2, 6, 0x2F), // swap
        ],
    );
    core.reg[5] = 11;
    assert_eq!(core.step(), StepOutcome::Retired);
    assert_eq!(core.reg[1], 7);
    assert_eq!(core.step(), StepOutcome::Retired);
    assert_eq!(core.reg[4], 0); // success is always reported
    assert_eq!(core.mem.lw(BASE + 0x100), Some(9));
    assert_eq!(core.step(), StepOutcome::Retired);
    assert_eq!(core.reg[6], 9);
    assert_eq!(core.mem.lw(BASE + 0x100), Some(11));
}

#[test]
fn amo_min_max_family() {
    let mut core = Core::new();
    assert!(core.mem.sw(BASE + 0x100, 0xFFFF_FFFE)); // -2 signed
    core.reg[2] = BASE + 0x100;
    core.reg[3] = 1;
    // signed max of -2 and 1 is 1
    load_prog(&mut core, &[enc_r(0x14 << 2, 3, 2, 2, 1, 0x2F)]);
    assert_eq!(core.step(), StepOutcome::Retired);
    assert_eq!(core.reg[1], 0xFFFF_FFFE);
    assert_eq!(core.mem.lw(BASE + 0x100), Some(1));

    let mut core2 = Core::new();
    assert!(core2.mem.sw(BASE + 0x100, 0xFFFF_FFFE));
    core2.reg[2] = BASE + 0x100;
    core2.reg[3] = 1;
    // unsigned max of 0xFFFFFFFE and 1 is 0xFFFFFFFE
    load_prog(&mut core2, &[enc_r(0x1C << 2, 3, 2, 2, 1, 0x2F)]);
    assert_eq!(core2.step(), StepOutcome::Retired);
    assert_eq!(core2.mem.lw(BASE + 0x100), Some(0xFFFF_FFFE));
}

#[test]
fn csrrw_then_csrrs() {
    let mut core = Core::new();
    core.reg[2] = 0x42;
    core.reg[4] = 0x1;
    load_prog(
        &mut core,
        &[
            enc_i(0x10, 2, 1, 1, 0x73), // replace: rd gets 0, CSR gets 0x42
            enc_i(0x10, 4, 2, 3, 0x73), // set bits: rd gets 0x42, CSR gets 0x43
        ],
    );
    assert_eq!(core.step(), StepOutcome::Retired);
    assert_eq!(core.reg[1], 0);
    assert_eq!(core.csrs[0x10], 0x42);
    assert_eq!(core.step(), StepOutcome::Retired);
    assert_eq!(core.reg[3], 0x42);
    assert_eq!(core.csrs[0x10], 0x43);
}

#[test]
fn csr_immediate_forms() {
    let mut core = Core::new();
    load_prog(
        &mut core,
        &[
            enc_i(0x20, 31, 5, 1, 0x73), // write immediate 31
            enc_i(0x20, 3, 7, 3, 0x73),  // clear bits of immediate 3
            enc_i(0x20, 8, 6, 4, 0x73),  // set bits of immediate 8
        ],
    );
    assert_eq!(core.step(), StepOutcome::Retired);
    assert_eq!(core.csrs[0x20], 31);
    assert_eq!(core.step(), StepOutcome::Retired);
    assert_eq!(core.reg[3], 31);
    assert_eq!(core.csrs[0x20], 28);
    assert_eq!(core.step(), StepOutcome::Retired);
    assert_eq!(core.csrs[0x20], 28 | 8);
}

#[test]
fn csr_read_to_x0_is_discarded() {
    let mut core = Core::new();
    core.csrs[0x30] = 77;
    core.reg[2] = 5;
    load_prog(&mut core, &[enc_i(0x30, 2, 1, 0, 0x73)]);
    assert_eq!(core.step(), StepOutcome::Retired);
    assert_eq!(core.reg[0], 0);
    assert_eq!(core.csrs[0x30], 5);
}

#[test]
fn ebreak_reports_cycle_count() {
    let mut core = Core::new();
    load_prog(
        &mut core,
        &[
            enc_i(1, 0, 0, 1, 0x13),
            enc_i(2, 0, 0, 2, 0x13),
            enc_i(3, 0, 0, 3, 0x13),
            enc_i(1, 0, 0, 0, 0x73), // EBREAK
        ],
    );
    assert_eq!(core.run(10), Some(StepOutcome::Ebreak));
    assert_eq!(core.cycle_count, 3);
    assert_eq!(core.pc, BASE + 12);
}

#[test]
fn ecall_is_reported_unimplemented() {
    let mut core = Core::new();
    load_prog(&mut core, &[enc_i(0, 0, 0, 0, 0x73)]);
    assert_eq!(core.step(), StepOutcome::EcallUnimplemented);
    assert_eq!(core.pc, BASE);
    assert_eq!(core.cycle_count, 0);
}

#[test]
fn beq_taken_and_not_taken() {
    let mut core = Core::new();
    core.reg[1] = 4;
    core.reg[2] = 4;
    load_prog(&mut core, &[enc_b(0x100, 2, 1, 0)]);
    assert_eq!(core.step(), StepOutcome::Retired);
    assert_eq!(core.pc, BASE + 0x100);

    let mut core2 = Core::new();
    core2.reg[1] = 4;
    core2.reg[2] = 5;
    load_prog(&mut core2, &[enc_b(0x100, 2, 1, 0)]);
    assert_eq!(core2.step(), StepOutcome::Retired);
    assert_eq!(core2.pc, BASE + 4);
}

#[test]
fn branch_conditions() {
    // bltu taken: 1 < 2
    let mut core = Core::new();
    core.reg[1] = 1;
    core.reg[2] = 2;
    load_prog(&mut core, &[enc_b(8, 2, 1, 6)]);
    assert_eq!(core.step(), StepOutcome::Retired);
    assert_eq!(core.pc, BASE + 8);

    // blt not taken: -1 < -2 is false
    let mut core2 = Core::new();
    core2.reg[1] = 0xFFFF_FFFF;
    core2.reg[2] = 0xFFFF_FFFE;
    load_prog(&mut core2, &[enc_b(8, 2, 1, 4)]);
    assert_eq!(core2.step(), StepOutcome::Retired);
    assert_eq!(core2.pc, BASE + 4);

    // bge taken on equality
    let mut core3 = Core::new();
    core3.reg[1] = 9;
    core3.reg[2] = 9;
    load_prog(&mut core3, &[enc_b(8, 2, 1, 5)]);
    assert_eq!(core3.step(), StepOutcome::Retired);
    assert_eq!(core3.pc, BASE + 8);

    // backward branch: bne taken with a negative offset
    let mut core4 = Core::new();
    core4.reg[1] = 1;
    core4.pc = BASE + 0x40;
    assert!(core4.mem.sw(BASE + 0x40, enc_b(0xFFFF_FFF8, 2, 1, 1)));
    assert_eq!(core4.step(), StepOutcome::Retired);
    assert_eq!(core4.pc, BASE + 0x38);
}

#[test]
fn unmapped_load_returns_zero() {
    let m = Mem::new();
    assert_eq!(m.lb(0), Some(0));
    assert_eq!(m.lw(0), Some(0));

    let mut core = Core::new();
    core.reg[2] = 0; // address 0x00000000
    load_prog(&mut core, &[enc_i(0, 2, 2, 1, 0x03)]);
    core.reg[1] = 123;
    assert_eq!(core.step(), StepOutcome::Retired);
    assert_eq!(core.reg[1], 0);
}

#[test]
fn unmapped_store_has_no_effect_and_no_fault() {
    let mut m = Mem::new();
    assert!(m.sb(0, 0xAB));
    assert!(m.sw(0, 0xFFFF_FFFF));
    assert_eq!(m.lb(0), Some(0));
    assert_eq!(m.lw(0), Some(0));

    let mut core = Core::new();
    core.reg[2] = 0;
    core.reg[3] = 0xFFFF_FFFF;
    load_prog(&mut core, &[enc_s(0, 3, 2, 2)]);
    assert_eq!(core.step(), StepOutcome::Retired);
    assert_eq!(core.pc, BASE + 4);
}

#[test]
fn mapped_out_of_range_access_faults() {
    let end = BASE + MEMORY_SIZE as u32;
    let mut m = Mem::new();
    assert_eq!(m.lb(end), None);
    assert!(!m.sb(end, 1));
    assert_eq!(m.lw(end - 2), None); // straddles the boundary
    assert!(!m.sw(end - 2, 5));
    assert_eq!(m.lb(end - 1), Some(0)); // last byte is still in range

    let mut core = Core::new();
    core.reg[2] = end;
    load_prog(&mut core, &[enc_i(0, 2, 2, 1, 0x03)]);
    assert_eq!(core.step(), StepOutcome::MemoryFault);
    assert_eq!(core.pc, BASE);
    assert_eq!(core.cycle_count, 0);
}

#[test]
fn decode_fault_on_unknown_opcode() {
    let mut core = Core::new();
    load_prog(&mut core, &[0x0000_007F]); // opcode-class bits 11111
    assert_eq!(core.step(), StepOutcome::DecodeFault);
    assert_eq!(core.pc, BASE);
    assert_eq!(core.cycle_count, 0);
}

#[test]
fn instruction_faults_under_system_and_amo() {
    let mut core = Core::new();
    load_prog(&mut core, &[enc_i(5, 0, 0, 0, 0x73)]); // funct12 == 5 under funct3 0
    assert_eq!(core.step(), StepOutcome::InstructionFault);

    let mut core2 = Core::new();
    load_prog(&mut core2, &[enc_i(0, 0, 4, 0, 0x73)]); // funct3 == 4 under System
    assert_eq!(core2.step(), StepOutcome::InstructionFault);

    let mut core3 = Core::new();
    core3.reg[2] = BASE;
    load_prog(&mut core3, &[enc_r(0x00, 3, 2, 0, 1, 0x2F)]); // AMO width not a word
    assert_eq!(core3.step(), StepOutcome::InstructionFault);

    let mut core4 = Core::new();
    core4.reg[2] = BASE;
    load_prog(&mut core4, &[enc_r(0x05 << 2, 3, 2, 2, 1, 0x2F)]); // unknown AMO subtype
    assert_eq!(core4.step(), StepOutcome::InstructionFault);
}

#[test]
fn stall_on_unrecognized_load_width() {
    let mut core = Core::new();
    load_prog(&mut core, &[enc_i(0, 0, 3, 1, 0x03)]);
    assert_eq!(core.step(), StepOutcome::Stall);
    assert_eq!(core.pc, BASE);
    assert_eq!(core.cycle_count, 0);
    // the engine refetches the same instruction and stalls again
    assert_eq!(core.step(), StepOutcome::Stall);
    assert_eq!(core.pc, BASE);
}

#[test]
fn stall_on_unrecognized_store_and_branch() {
    let mut core = Core::new();
    load_prog(&mut core, &[enc_s(0, 3, 2, 5)]);
    assert_eq!(core.step(), StepOutcome::Stall);

    let mut core2 = Core::new();
    load_prog(&mut core2, &[enc_b(8, 2, 1, 2)]);
    assert_eq!(core2.step(), StepOutcome::Stall);
    assert_eq!(core2.pc, BASE);
}

#[test]
fn op_arithmetic_and_logic() {
    let mut core = Core::new();
    core.reg[1] = 5;
    core.reg[2] = 7;
    load_prog(
        &mut core,
        &[
            enc_r(0x20, 2, 1, 0, 3, 0x33), // subtraction: 5 - 7
            enc_r(0x00, 2, 1, 0, 4, 0x33), // addition: 5 + 7
            enc_r(0x00, 2, 1, 4, 5, 0x33), // xor
            enc_r(0x00, 2, 1, 6, 6, 0x33), // or
            enc_r(0x00, 2, 1, 7, 7, 0x33), // and
            enc_r(0x00, 2, 1, 2, 8, 0x33), // signed less-than
            enc_r(0x00, 2, 1, 3, 9, 0x33), // unsigned less-than
        ],
    );
    assert_eq!(core.run(7), None);
    assert_eq!(core.reg[3], 0xFFFF_FFFE);
    assert_eq!(core.reg[4], 12);
    assert_eq!(core.reg[5], 2);
    assert_eq!(core.reg[6], 7);
    assert_eq!(core.reg[7], 5);
    assert_eq!(core.reg[8], 1);
    assert_eq!(core.reg[9], 1);
}

#[test]
fn shifts_logical_and_arithmetic() {
    let mut core = Core::new();
    core.reg[1] = 0x8000_0010;
    core.reg[2] = 4;
    load_prog(
        &mut core,
        &[
            enc_r(0x00, 2, 1, 1, 3, 0x33),  // shift left
            enc_r(0x00, 2, 1, 5, 4, 0x33),  // logical shift right
            enc_r(0x20, 2, 1, 5, 5, 0x33),  // arithmetic shift right
            enc_i(4, 1, 1, 6, 0x13),        // immediate shift left
            enc_i(4, 1, 5, 7, 0x13),        // immediate logical shift right
            enc_i(0x404, 1, 5, 8, 0x13),    // immediate arithmetic shift right
        ],
    );
    assert_eq!(core.run(6), None);
    assert_eq!(core.reg[3], 0x0000_0100);
    assert_eq!(core.reg[4], 0x0800_0001);
    assert_eq!(core.reg[5], 0xF800_0001);
    assert_eq!(core.reg[6], 0x0000_0100);
    assert_eq!(core.reg[7], 0x0800_0001);
    assert_eq!(core.reg[8], 0xF800_0001);
}

#[test]
fn signed_comparison_across_sign_boundary() {
    let mut core = Core::new();
    core.reg[1] = 0xFFFF_FFFF; // -1 signed
    core.reg[2] = 1;
    load_prog(
        &mut core,
        &[
            enc_r(0x00, 2, 1, 2, 3, 0x33), // -1 < 1 signed
            enc_r(0x00, 2, 1, 3, 4, 0x33), // 0xFFFFFFFF < 1 unsigned is false
        ],
    );
    assert_eq!(core.run(2), None);
    assert_eq!(core.reg[3], 1);
    assert_eq!(core.reg[4], 0);
}

#[test]
fn jal_links_and_jumps() {
    let mut core = Core::new();
    load_prog(&mut core, &[enc_j(0x20, 1)]);
    assert_eq!(core.step(), StepOutcome::Retired);
    assert_eq!(core.reg[1], BASE + 4);
    assert_eq!(core.pc, BASE + 0x20);
}

#[test]
fn jalr_masks_the_immediate_low_bit() {
    let mut core = Core::new();
    core.reg[2] = BASE + 0x100;
    load_prog(&mut core, &[enc_i(3, 2, 0, 1, 0x67)]);
    assert_eq!(core.step(), StepOutcome::Retired);
    assert_eq!(core.reg[1], BASE + 4);
    assert_eq!(core.pc, BASE + 0x102);
}

#[test]
fn lui_and_auipc() {
    let mut core = Core::new();
    load_prog(
        &mut core,
        &[
            (0x12345 << 12) | (1 << 7) | 0x37, // upper immediate
            (0x00001 << 12) | (2 << 7) | 0x17, // pc-relative upper immediate
        ],
    );
    assert_eq!(core.step(), StepOutcome::Retired);
    assert_eq!(core.reg[1], 0x1234_5000);
    assert_eq!(core.step(), StepOutcome::Retired);
    assert_eq!(core.reg[2], BASE + 4 + 0x1000);
}

#[test]
fn fence_only_advances_pc() {
    let mut core = Core::new();
    load_prog(&mut core, &[0x0000_000F]);
    assert_eq!(core.step(), StepOutcome::Retired);
    assert_eq!(core.pc, BASE + 4);
    assert_eq!(core.cycle_count, 1);
}

#[test]
fn immediate_decoders_exact_values() {
    assert_eq!(read_imm_i(enc_i(5, 2, 0, 1, 0x13)), 5);
    assert_eq!(read_imm_i(enc_i(0xFFD, 2, 0, 1, 0x13)), 0xFFFF_FFFD);
    assert_eq!(read_imm_s(enc_s(0x7FF, 3, 2, 2)), 0x7FF);
    assert_eq!(read_imm_s(enc_s(0xFFFF_F800, 3, 2, 2)), 0xFFFF_F800);
    assert_eq!(read_imm_b(enc_b(0x1FFE, 2, 1, 0)), 0xFFFF_FFFE);
    assert_eq!(read_imm_u((0x12345 << 12) | (1 << 7) | 0x37), 0x1234_5000);
    assert_eq!(read_imm_j(enc_j(0x20, 1)), 0x20);
    assert_eq!(read_imm_j(enc_j(0xFFF0_0000, 1)), 0xFFF0_0000);
}

#[test]
fn load_image_installs_bytes_and_resets() {
    let mut core = Core::new();
    core.reg[5] = 99;
    core.pc = BASE + 0x40;
    let addi = enc_i(7, 0, 0, 1, 0x13);
    let image = vec![
        (addi & 0xFF) as u8,
        ((addi >> 8) & 0xFF) as u8,
        ((addi >> 16) & 0xFF) as u8,
        ((addi >> 24) & 0xFF) as u8,
        0xAA,
    ];
    core.load_image(image);
    assert_eq!(core.pc, BASE);
    assert_eq!(core.reg[5], 0);
    assert_eq!(core.mem.lw(BASE), Some(addi));
    assert_eq!(core.mem.lb(BASE + 4), Some(0xAA));
    assert_eq!(core.mem.lb(BASE + 5), Some(0)); // zero padding
    assert_eq!(core.step(), StepOutcome::Retired);
    assert_eq!(core.reg[1], 7);
}

#[test]
fn reset_clears_registers_and_pc_only() {
    let mut core = Core::new();
    core.reg[3] = 5;
    core.csrs[7] = 9;
    core.pc = BASE + 0x10;
    core.cycle_count = 2;
    core.reset();
    assert_eq!(core.reg[3], 0);
    assert_eq!(core.pc, BASE);
    assert_eq!(core.csrs[7], 9);
    assert_eq!(core.cycle_count, 2);
}

#[test]
fn run_returns_none_when_fuel_is_spent() {
    let mut core = Core::new();
    load_prog(
        &mut core,
        &[
            enc_i(1, 0, 0, 1, 0x13),
            enc_i(2, 0, 0, 2, 0x13),
            enc_i(3, 0, 0, 3, 0x13),
        ],
    );
    assert_eq!(core.run(2), None);
    assert_eq!(core.cycle_count, 2);
    assert_eq!(core.pc, BASE + 8);
    assert_eq!(core.reg[3], 0);
}

#[test]
fn run_stops_at_the_first_fault() {
    let mut core = Core::new();
    load_prog(
        &mut core,
        &[
            enc_i(1, 0, 0, 1, 0x13),
            0x0000_007F, // unknown opcode class
            enc_i(3, 0, 0, 3, 0x13),
        ],
    );
    assert_eq!(core.run(10), Some(StepOutcome::DecodeFault));
    assert_eq!(core.cycle_count, 1);
    assert_eq!(core.pc, BASE + 4);
}

#[test]
fn x0_reads_as_zero_during_the_writing_step() {
    // A store whose source is x0 observes 0 even though an earlier step
    // targeted x0.
    let mut core = Core::new();
    core.reg[2] = BASE + 0x500;
    assert!(core.mem.sw(BASE + 0x500, 0xFFFF_FFFF));
    load_prog(
        &mut core,
        &[
            enc_i(9, 0, 0, 0, 0x13), // writes x0, discarded
            enc_s(0, 0, 2, 2),       // stores x0
        ],
    );
    assert_eq!(core.run(2), None);
    assert_eq!(core.mem.lw(BASE + 0x500), Some(0));
}
