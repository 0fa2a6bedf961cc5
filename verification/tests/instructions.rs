use lc3::defs::{FL_NEG, FL_POS, FL_ZRO};
use lc3::state::State;
use lc3::{
    do_add, do_and, do_br, do_jmp, do_jsr, do_ld, do_ldi, do_ldr, do_lea, do_not, do_st, do_sti,
    do_str,
};

fn fresh() -> State {
    let st = State::new();
    assert!(st.is_well_formed());
    st
}

#[test]
fn add_register_mode_wraps() {
    let mut st = fresh();
    st.reg.gpr[3] = 0xFFFF;
    st.reg.gpr[4] = 2;
    // ADD R2, R3, R4
    do_add(0x14C4, &mut st);
    assert_eq!(st.reg.gpr[2], 1);
    assert_eq!(st.reg.cond, FL_POS);
    assert_eq!(st.reg.pc, 0x3000);
}

#[test]
fn add_immediate_mode_sign_extends() {
    let mut st = fresh();
    st.reg.gpr[1] = 5;
    // ADD R0, R1, #-1  (imm5 = 0x1F)
    do_add(0x107F, &mut st);
    assert_eq!(st.reg.gpr[0], 4);
    assert_eq!(st.reg.cond, FL_POS);
}

#[test]
fn add_immediate_zero_copies_source() {
    let mut st = fresh();
    st.reg.gpr[1] = 0x1234;
    // ADD R0, R1, #0
    do_add(0x1060, &mut st);
    assert_eq!(st.reg.gpr[0], 0x1234);
    assert_eq!(st.reg.gpr[1], 0x1234);
    assert_eq!(st.reg.cond, FL_POS);
}

#[test]
fn and_immediate_zero_clears_destination() {
    let mut st = fresh();
    st.reg.gpr[0] = 0xFFFF;
    st.reg.gpr[1] = 0xFFFF;
    // AND R0, R1, #0
    do_and(0x5060, &mut st);
    assert_eq!(st.reg.gpr[0], 0);
    assert_eq!(st.reg.cond, FL_ZRO);
}

#[test]
fn and_register_mode() {
    let mut st = fresh();
    st.reg.gpr[3] = 0xF0F0;
    st.reg.gpr[4] = 0x8FFF;
    // AND R2, R3, R4
    do_and(0x54C4, &mut st);
    assert_eq!(st.reg.gpr[2], 0x80F0);
    assert_eq!(st.reg.cond, FL_NEG);
}

#[test]
fn not_complements() {
    let mut st = fresh();
    st.reg.gpr[2] = 0x00FF;
    // NOT R4, R2
    do_not(0x98BF, &mut st);
    assert_eq!(st.reg.gpr[4], 0xFF00);
    assert_eq!(st.reg.cond, FL_NEG);
}

#[test]
fn br_taken_moves_pc() {
    let mut st = fresh();
    st.reg.cond = FL_ZRO;
    // BRz with offset +4 (cond mask z = bit 10)
    do_br(0x0404, &mut st);
    assert_eq!(st.reg.pc, 0x3004);
}

#[test]
fn br_not_taken_leaves_pc() {
    let mut st = fresh();
    st.reg.cond = FL_POS;
    // BRn with offset +4
    do_br(0x0804, &mut st);
    assert_eq!(st.reg.pc, 0x3000);
}

#[test]
fn br_negative_offset_wraps_back() {
    let mut st = fresh();
    st.reg.cond = FL_ZRO;
    // BRnzp with offset -2 (0x1FE)
    do_br(0x0FFE, &mut st);
    assert_eq!(st.reg.pc, 0x2FFE);
}

#[test]
fn jmp_loads_pc_from_base() {
    let mut st = fresh();
    st.reg.gpr[2] = 0x4242;
    // JMP R2
    do_jmp(0xC080, &mut st);
    assert_eq!(st.reg.pc, 0x4242);
}

#[test]
fn jsr_links_r7_then_jumps_relative() {
    let mut st = fresh();
    st.reg.pc = 0x3001; // the loop has already moved past the instruction
    // JSR #+16
    do_jsr(0x4810, &mut st);
    assert_eq!(st.reg.gpr[7], 0x3001);
    assert_eq!(st.reg.pc, 0x3011);
}

#[test]
fn jsrr_links_r7_then_jumps_through_base() {
    let mut st = fresh();
    st.reg.pc = 0x3001;
    st.reg.gpr[3] = 0x5000;
    // JSRR R3
    do_jsr(0x40C0, &mut st);
    assert_eq!(st.reg.gpr[7], 0x3001);
    assert_eq!(st.reg.pc, 0x5000);
}

#[test]
fn jsrr_through_r7_reads_the_fresh_link() {
    let mut st = fresh();
    st.reg.pc = 0x3001;
    st.reg.gpr[7] = 0x1234;
    // JSRR R7: R7 is linked first, so the jump lands on the link itself
    do_jsr(0x41C0, &mut st);
    assert_eq!(st.reg.gpr[7], 0x3001);
    assert_eq!(st.reg.pc, 0x3001);
}

#[test]
fn ld_reads_pc_relative() {
    let mut st = fresh();
    st.mem.write(0x3005, 0x8001);
    // LD R4, #+5
    do_ld(0x2805, &mut st);
    assert_eq!(st.reg.gpr[4], 0x8001);
    assert_eq!(st.reg.cond, FL_NEG);
}

#[test]
fn ldi_follows_the_pointer() {
    let mut st = fresh();
    st.mem.write(0x3002, 0x4000); // A holds B
    st.mem.write(0x4000, 0x0042); // B holds V
    // LDI R4, #+2
    do_ldi(0xA802, &mut st);
    assert_eq!(st.reg.gpr[4], 0x0042);
    assert_eq!(st.reg.cond, FL_POS);
}

#[test]
fn ldr_reads_base_plus_offset() {
    let mut st = fresh();
    st.reg.gpr[2] = 0x4005;
    st.mem.write(0x4000, 0x0007);
    // LDR R4, R2, #-5
    do_ldr(0x68BB, &mut st);
    assert_eq!(st.reg.gpr[4], 0x0007);
    assert_eq!(st.reg.cond, FL_POS);
}

#[test]
fn lea_writes_the_address_itself() {
    let mut st = fresh();
    // LEA R4, #-3
    do_lea(0xE9FD, &mut st);
    assert_eq!(st.reg.gpr[4], 0x2FFD);
    assert_eq!(st.reg.cond, FL_POS);
}

#[test]
fn st_stores_pc_relative() {
    let mut st = fresh();
    st.reg.gpr[4] = 0xCAFE;
    // ST R4, #+3
    do_st(0x3803, &mut st);
    assert_eq!(st.mem.data[0x3003], 0xCAFE);
    assert_eq!(st.reg.cond, FL_ZRO); // stores leave the flags alone
}

#[test]
fn sti_stores_through_the_pointer() {
    let mut st = fresh();
    st.reg.gpr[4] = 0xBEEF;
    st.mem.write(0x3002, 0x5000);
    // STI R4, #+2
    do_sti(0xB802, &mut st);
    assert_eq!(st.mem.data[0x5000], 0xBEEF);
    assert_eq!(st.mem.data[0x3002], 0x5000);
}

#[test]
fn str_stores_base_plus_offset() {
    let mut st = fresh();
    st.reg.gpr[4] = 0x1111;
    st.reg.gpr[2] = 0x6000;
    // STR R4, R2, #5
    do_str(0x7885, &mut st);
    assert_eq!(st.mem.data[0x6005], 0x1111);
}
