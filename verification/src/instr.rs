//! One execution routine per opcode. Each routine decodes its own operand
//! fields from the instruction word and mutates the register file and
//! memory; its contract pins the new state down exactly through a post
//! relation over the machine view, up to the outcome of any keyboard poll a
//! memory read may perform.
use vstd::prelude::*;

use crate::bits::{sext, sign_extend, wadd};
use crate::defs::{FL_NEG, FL_POS, FL_ZRO, KBSR};
use crate::state::{flag_for, flag_valid, mem_after_read, State, VmView};

verus! {

/// The destination-register field (bits 11:9); also the source register of
/// the stores and the n/z/p mask of BR.
pub open spec fn dst(instr: u16) -> u16 {
    (instr >> 9) & 7
}

/// The first source-register field (bits 8:6); also the base register of
/// JMP, JSRR, LDR and STR.
pub open spec fn sr1(instr: u16) -> u16 {
    (instr >> 6) & 7
}

/// The second source-register field (bits 2:0).
pub open spec fn sr2(instr: u16) -> u16 {
    instr & 7
}

/// Whether bit 5 selects immediate mode for ADD and AND.
pub open spec fn imm_mode(instr: u16) -> bool {
    (instr >> 5) & 1 == 1
}

/// Whether bit 11 selects the PC-relative form of JSR.
pub open spec fn long_flag(instr: u16) -> bool {
    (instr >> 11) & 1 == 1
}

/// The sign-extended 5-bit immediate.
pub open spec fn imm5(instr: u16) -> u16 {
    sext(instr & 0x1f, 5)
}

/// The sign-extended 6-bit base offset.
pub open spec fn off6(instr: u16) -> u16 {
    sext(instr & 0x3f, 6)
}

/// The sign-extended 9-bit PC offset.
pub open spec fn off9(instr: u16) -> u16 {
    sext(instr & 0x1ff, 9)
}

/// The sign-extended 11-bit PC offset of JSR.
pub open spec fn off11(instr: u16) -> u16 {
    sext(instr & 0x7ff, 11)
}

/// The trap vector in the low byte of a TRAP instruction.
pub open spec fn trapvect(instr: u16) -> u16 {
    instr & 0xff
}

/// Every register field names one of the eight general registers, every
/// opcode one of the sixteen operations, every trap vector one byte.
pub proof fn lemma_fields_in_range(instr: u16)
    by (bit_vector)
    ensures
        (instr >> 9) & 7 < 8,
        (instr >> 6) & 7 < 8,
        instr & 7 < 8,
        instr >> 12 < 16,
        instr & 0xff < 256,
{
}

/// The value ADD writes: source one plus either the second source register
/// or the sign-extended immediate, wrapping at 16 bits.
pub open spec fn add_result(g: Seq<u16>, instr: u16) -> u16 {
    if imm_mode(instr) {
        wadd(g[sr1(instr) as int], imm5(instr))
    } else {
        wadd(g[sr1(instr) as int], g[sr2(instr) as int])
    }
}

/// The value AND writes: the bitwise conjunction of the same operands.
pub open spec fn and_result(g: Seq<u16>, instr: u16) -> u16 {
    if imm_mode(instr) {
        g[sr1(instr) as int] & imm5(instr)
    } else {
        g[sr1(instr) as int] & g[sr2(instr) as int]
    }
}

/// The value NOT writes: the bitwise complement of its source register.
pub open spec fn not_result(g: Seq<u16>, instr: u16) -> u16 {
    !g[sr1(instr) as int]
}

/// The destination register takes `v`, the condition code follows `v`, and
/// nothing else moves: the common shape of every flag-updating register
/// write.
pub open spec fn sets_reg_and_flags(pre: VmView, post: VmView, dr: u16, v: u16) -> bool {
    &&& post.gpr == pre.gpr.update(dr as int, v)
    &&& post.cond == flag_for(v)
    &&& post.pc == pre.pc
    &&& post.mem == pre.mem
    &&& post.running == pre.running
}

pub open spec fn add_post(pre: VmView, post: VmView, instr: u16) -> bool {
    sets_reg_and_flags(pre, post, dst(instr), add_result(pre.gpr, instr))
}

pub open spec fn and_post(pre: VmView, post: VmView, instr: u16) -> bool {
    sets_reg_and_flags(pre, post, dst(instr), and_result(pre.gpr, instr))
}

pub open spec fn not_post(pre: VmView, post: VmView, instr: u16) -> bool {
    sets_reg_and_flags(pre, post, dst(instr), not_result(pre.gpr, instr))
}

/// BR moves the program counter by the sign-extended offset when the n/z/p
/// mask meets the current condition code, and nothing else.
pub open spec fn br_post(pre: VmView, post: VmView, instr: u16) -> bool {
    &&& post.pc == (if dst(instr) & pre.cond != 0 {
        wadd(pre.pc, off9(instr))
    } else {
        pre.pc
    })
    &&& post.gpr == pre.gpr
    &&& post.cond == pre.cond
    &&& post.mem == pre.mem
    &&& post.running == pre.running
}

/// JMP loads the program counter from the base register.
pub open spec fn jmp_post(pre: VmView, post: VmView, instr: u16) -> bool {
    &&& post.pc == pre.gpr[sr1(instr) as int]
    &&& post.gpr == pre.gpr
    &&& post.cond == pre.cond
    &&& post.mem == pre.mem
    &&& post.running == pre.running
}

/// JSR and JSRR first link R7 to the address of the following instruction,
/// then jump PC-relative or through the base register; the base register is
/// read after the link, as the machine writes R7 first.
pub open spec fn jsr_post(pre: VmView, post: VmView, instr: u16) -> bool {
    let linked = pre.gpr.update(7, pre.pc);
    &&& post.gpr == linked
    &&& post.pc == (if long_flag(instr) {
        wadd(pre.pc, off11(instr))
    } else {
        linked[sr1(instr) as int]
    })
    &&& post.cond == pre.cond
    &&& post.mem == pre.mem
    &&& post.running == pre.running
}

/// LD under a fixed poll outcome `k`: the destination takes the word at
/// PC + offset in the memory as it stands after the read.
pub open spec fn ld_post_k(pre: VmView, post: VmView, instr: u16, k: Option<u8>) -> bool {
    let ea = wadd(pre.pc, off9(instr));
    let m = mem_after_read(pre.mem, ea, k);
    let v = m[ea as int];
    &&& post.mem == m
    &&& post.gpr == pre.gpr.update(dst(instr) as int, v)
    &&& post.cond == flag_for(v)
    &&& post.pc == pre.pc
    &&& post.running == pre.running
}

pub open spec fn ld_post(pre: VmView, post: VmView, instr: u16) -> bool {
    exists|k: Option<u8>| ld_post_k(pre, post, instr, k)
}

/// LDR under a fixed poll outcome: like LD, with base register + offset as
/// the effective address.
pub open spec fn ldr_post_k(pre: VmView, post: VmView, instr: u16, k: Option<u8>) -> bool {
    let ea = wadd(pre.gpr[sr1(instr) as int], off6(instr));
    let m = mem_after_read(pre.mem, ea, k);
    let v = m[ea as int];
    &&& post.mem == m
    &&& post.gpr == pre.gpr.update(dst(instr) as int, v)
    &&& post.cond == flag_for(v)
    &&& post.pc == pre.pc
    &&& post.running == pre.running
}

pub open spec fn ldr_post(pre: VmView, post: VmView, instr: u16) -> bool {
    exists|k: Option<u8>| ldr_post_k(pre, post, instr, k)
}

/// LDI under fixed poll outcomes for its two reads: the word at PC + offset
/// names the address whose word the destination takes.
pub open spec fn ldi_post_k(
    pre: VmView,
    post: VmView,
    instr: u16,
    k1: Option<u8>,
    k2: Option<u8>,
) -> bool {
    let ea = wadd(pre.pc, off9(instr));
    let m1 = mem_after_read(pre.mem, ea, k1);
    let a2 = m1[ea as int];
    let m2 = mem_after_read(m1, a2, k2);
    let v = m2[a2 as int];
    &&& post.mem == m2
    &&& post.gpr == pre.gpr.update(dst(instr) as int, v)
    &&& post.cond == flag_for(v)
    &&& post.pc == pre.pc
    &&& post.running == pre.running
}

pub open spec fn ldi_post(pre: VmView, post: VmView, instr: u16) -> bool {
    exists|k1: Option<u8>, k2: Option<u8>| ldi_post_k(pre, post, instr, k1, k2)
}

/// LEA writes the effective address itself, no memory involved.
pub open spec fn lea_post(pre: VmView, post: VmView, instr: u16) -> bool {
    sets_reg_and_flags(pre, post, dst(instr), wadd(pre.pc, off9(instr)))
}

/// ST stores the source register at PC + offset; no flags move.
pub open spec fn st_post(pre: VmView, post: VmView, instr: u16) -> bool {
    &&& post.mem == pre.mem.update(
        wadd(pre.pc, off9(instr)) as int,
        pre.gpr[dst(instr) as int],
    )
    &&& post.gpr == pre.gpr
    &&& post.pc == pre.pc
    &&& post.cond == pre.cond
    &&& post.running == pre.running
}

/// STI under a fixed poll outcome: the word at PC + offset names the
/// address that receives the source register.
pub open spec fn sti_post_k(pre: VmView, post: VmView, instr: u16, k: Option<u8>) -> bool {
    let ea = wadd(pre.pc, off9(instr));
    let m = mem_after_read(pre.mem, ea, k);
    let target = m[ea as int];
    &&& post.mem == m.update(target as int, pre.gpr[dst(instr) as int])
    &&& post.gpr == pre.gpr
    &&& post.pc == pre.pc
    &&& post.cond == pre.cond
    &&& post.running == pre.running
}

pub open spec fn sti_post(pre: VmView, post: VmView, instr: u16) -> bool {
    exists|k: Option<u8>| sti_post_k(pre, post, instr, k)
}

/// STR stores the source register at base register + offset.
pub open spec fn str_post(pre: VmView, post: VmView, instr: u16) -> bool {
    &&& post.mem == pre.mem.update(
        wadd(pre.gpr[sr1(instr) as int], off6(instr)) as int,
        pre.gpr[dst(instr) as int],
    )
    &&& post.gpr == pre.gpr
    &&& post.pc == pre.pc
    &&& post.cond == pre.cond
    &&& post.running == pre.running
}

/// ADD: destination takes source one plus register or immediate operand,
/// wrapping at 16 bits; flags follow the result.
pub fn do_add(instr: u16, state: &mut State)
    requires
        old(state).wf(),
    ensures
        final(state).wf(),
        add_post(old(state)@, final(state)@, instr),
{
    proof {
        lemma_fields_in_range(instr);
    }
    let r0: u16 = (instr >> 9) & 0x7;
    let r1: u16 = (instr >> 6) & 0x7;
    let imm_flag: u16 = (instr >> 5) & 1;

    if imm_flag == 1 {
        let imm: u16 = sign_extend(instr & 0x1F, 5);
        let v = self_gpr(state, r1).wrapping_add(imm);
        state.reg.gpr[r0 as usize] = v;
    } else {
        let r2: u16 = instr & 0x7;
        let v = self_gpr(state, r1).wrapping_add(self_gpr(state, r2));
        state.reg.gpr[r0 as usize] = v;
    }

    state.reg.update_flags(r0);
}

/// Reads general register `r`.
fn self_gpr(state: &State, r: u16) -> (v: u16)
    requires
        state.wf(),
        r < 8,
    ensures
        v == state@.gpr[r as int],
{
    state.reg.gpr[r as usize]
}

/// AND: like ADD with bitwise conjunction.
pub fn do_and(instr: u16, state: &mut State)
    requires
        old(state).wf(),
    ensures
        final(state).wf(),
        and_post(old(state)@, final(state)@, instr),
{
    proof {
        lemma_fields_in_range(instr);
    }
    let r0: u16 = (instr >> 9) & 0x7;
    let r1: u16 = (instr >> 6) & 0x7;
    let imm_flag: u16 = (instr >> 5) & 1;

    if imm_flag == 1 {
        let imm: u16 = sign_extend(instr & 0x1F, 5);
        let v = self_gpr(state, r1) & imm;
        state.reg.gpr[r0 as usize] = v;
    } else {
        let r2: u16 = instr & 0x7;
        let v = self_gpr(state, r1) & self_gpr(state, r2);
        state.reg.gpr[r0 as usize] = v;
    }

    state.reg.update_flags(r0);
}

/// NOT: destination takes the complement of the source; flags follow.
pub fn do_not(instr: u16, state: &mut State)
    requires
        old(state).wf(),
    ensures
        final(state).wf(),
        not_post(old(state)@, final(state)@, instr),
{
    proof {
        lemma_fields_in_range(instr);
    }
    let r0: u16 = (instr >> 9) & 0x7;
    let r1: u16 = (instr >> 6) & 0x7;

    let v = !self_gpr(state, r1);
    state.reg.gpr[r0 as usize] = v;

    state.reg.update_flags(r0);
}

/// BR: branch by the sign-extended offset when the instruction's n/z/p mask
/// meets the condition code.
pub fn do_br(instr: u16, state: &mut State)
    requires
        old(state).wf(),
    ensures
        final(state).wf(),
        br_post(old(state)@, final(state)@, instr),
{
    proof {
        lemma_fields_in_range(instr);
    }
    let cond_flag: u16 = (instr >> 9) & 0x7;
    let pc_offset: u16 = sign_extend(instr & 0x1FF, 9);

    if cond_flag & state.reg.cond != 0 {
        state.reg.pc = state.reg.pc.wrapping_add(pc_offset);
    }
}

/// JMP (and RET, its base-register-seven idiom): the program counter takes
/// the base register.
pub fn do_jmp(instr: u16, state: &mut State)
    requires
        old(state).wf(),
    ensures
        final(state).wf(),
        jmp_post(old(state)@, final(state)@, instr),
{
    proof {
        lemma_fields_in_range(instr);
    }
    let r1: u16 = (instr >> 6) & 0x7;
    state.reg.pc = self_gpr(state, r1);
}

/// JSR/JSRR: link R7 to the following instruction, then jump PC-relative or
/// through the base register.
pub fn do_jsr(instr: u16, state: &mut State)
    requires
        old(state).wf(),
    ensures
        final(state).wf(),
        jsr_post(old(state)@, final(state)@, instr),
{
    proof {
        lemma_fields_in_range(instr);
    }
    let long: u16 = (instr >> 11) & 1;
    state.reg.gpr[7] = state.reg.pc;

    if long == 1 {
        let long_pc_offset: u16 = sign_extend(instr & 0x7FF, 11);
        state.reg.pc = state.reg.pc.wrapping_add(long_pc_offset);
    } else {
        let r1: u16 = (instr >> 6) & 0x7;
        state.reg.pc = self_gpr(state, r1);
    }
}

/// LD: destination takes the word at PC + offset; flags follow.
pub fn do_ld(instr: u16, state: &mut State)
    requires
        old(state).wf(),
    ensures
        final(state).wf(),
        ld_post(old(state)@, final(state)@, instr),
{
    proof {
        lemma_fields_in_range(instr);
    }
    let r0: u16 = (instr >> 9) & 0x7;
    let pc_offset: u16 = sign_extend(instr & 0x1FF, 9);

    let ea = state.reg.pc.wrapping_add(pc_offset);
    let v = state.mem.read(ea);
    state.reg.gpr[r0 as usize] = v;
    state.reg.update_flags(r0);
    proof {
        let k = choose|k: Option<u8>|
            state.mem@ == mem_after_read(old(state).mem@, ea, k);
        assert(ld_post_k(old(state)@, state@, instr, k));
    }
}

/// LDI: the word at PC + offset names the address whose word the
/// destination takes; flags follow.
pub fn do_ldi(instr: u16, state: &mut State)
    requires
        old(state).wf(),
    ensures
        final(state).wf(),
        ldi_post(old(state)@, final(state)@, instr),
{
    proof {
        lemma_fields_in_range(instr);
    }
    let r0: u16 = (instr >> 9) & 0x7;
    let pc_offset: u16 = sign_extend(instr & 0x1FF, 9);

    let ea = state.reg.pc.wrapping_add(pc_offset);
    let a2 = state.mem.read(ea);
    let ghost m1 = state.mem@;
    let v = state.mem.read(a2);
    state.reg.gpr[r0 as usize] = v;
    state.reg.update_flags(r0);
    proof {
        let k1 = choose|k: Option<u8>| m1 == mem_after_read(old(state).mem@, ea, k);
        let k2 = choose|k: Option<u8>| state.mem@ == mem_after_read(m1, a2, k);
        assert(ldi_post_k(old(state)@, state@, instr, k1, k2));
    }
}

/// LDR: destination takes the word at base register + offset; flags follow.
pub fn do_ldr(instr: u16, state: &mut State)
    requires
        old(state).wf(),
    ensures
        final(state).wf(),
        ldr_post(old(state)@, final(state)@, instr),
{
    proof {
        lemma_fields_in_range(instr);
    }
    let r0: u16 = (instr >> 9) & 0x7;
    let r1: u16 = (instr >> 6) & 0x7;
    let offset: u16 = sign_extend(instr & 0x3F, 6);

    let ea = self_gpr(state, r1).wrapping_add(offset);
    let v = state.mem.read(ea);
    state.reg.gpr[r0 as usize] = v;
    state.reg.update_flags(r0);
    proof {
        let k = choose|k: Option<u8>|
            state.mem@ == mem_after_read(old(state).mem@, ea, k);
        assert(ldr_post_k(old(state)@, state@, instr, k));
    }
}

/// LEA: destination takes PC + offset itself; flags follow.
pub fn do_lea(instr: u16, state: &mut State)
    requires
        old(state).wf(),
    ensures
        final(state).wf(),
        lea_post(old(state)@, final(state)@, instr),
{
    proof {
        lemma_fields_in_range(instr);
    }
    let r0: u16 = (instr >> 9) & 0x7;
    let pc_offset: u16 = sign_extend(instr & 0x1FF, 9);

    let v = state.reg.pc.wrapping_add(pc_offset);
    state.reg.gpr[r0 as usize] = v;
    state.reg.update_flags(r0);
}

/// ST: the source register is stored at PC + offset.
pub fn do_st(instr: u16, state: &mut State)
    requires
        old(state).wf(),
    ensures
        final(state).wf(),
        st_post(old(state)@, final(state)@, instr),
{
    proof {
        lemma_fields_in_range(instr);
    }
    let r0: u16 = (instr >> 9) & 0x7;
    let pc_offset: u16 = sign_extend(instr & 0x1FF, 9);

    let address = state.reg.pc.wrapping_add(pc_offset);
    let value = self_gpr(state, r0);
    state.mem.write(address, value);
}

/// STI: the word at PC + offset names the address that receives the source
/// register.
pub fn do_sti(instr: u16, state: &mut State)
    requires
        old(state).wf(),
    ensures
        final(state).wf(),
        sti_post(old(state)@, final(state)@, instr),
{
    proof {
        lemma_fields_in_range(instr);
    }
    let r0: u16 = (instr >> 9) & 0x7;
    let pc_offset: u16 = sign_extend(instr & 0x1FF, 9);

    let ea = state.reg.pc.wrapping_add(pc_offset);
    let address = state.mem.read(ea);
    let ghost m1 = state.mem@;
    let value = self_gpr(state, r0);
    state.mem.write(address, value);
    proof {
        let k = choose|k: Option<u8>| m1 == mem_after_read(old(state).mem@, ea, k);
        assert(sti_post_k(old(state)@, state@, instr, k));
    }
}

/// STR: the source register is stored at base register + offset.
pub fn do_str(instr: u16, state: &mut State)
    requires
        old(state).wf(),
    ensures
        final(state).wf(),
        str_post(old(state)@, final(state)@, instr),
{
    proof {
        lemma_fields_in_range(instr);
    }
    let r0: u16 = (instr >> 9) & 0x7;
    let r1: u16 = (instr >> 6) & 0x7;
    let offset: u16 = sign_extend(instr & 0x3F, 6);

    let address = self_gpr(state, r1).wrapping_add(offset);
    let value = self_gpr(state, r0);
    state.mem.write(address, value);
}

/// After any flag-updating register write — the shape every ADD, AND, NOT,
/// LD, LDI, LDR and LEA execution takes — the condition code is exactly one
/// of the three one-hot flags, and it is the one consistent with the
/// destination register's final value.
pub proof fn lemma_flags_follow_destination(pre: VmView, post: VmView, dr: u16, v: u16)
    requires
        pre.gpr.len() == 8,
        dr < 8,
        sets_reg_and_flags(pre, post, dr, v),
    ensures
        flag_valid(post.cond),
        post.cond == flag_for(post.gpr[dr as int]),
        post.gpr[dr as int] == 0 ==> post.cond == FL_ZRO,
        post.gpr[dr as int] >= 0x8000 ==> post.cond == FL_NEG,
        0 < post.gpr[dr as int] < 0x8000 ==> post.cond == FL_POS,
{
}

/// Adding an immediate zero copies the source register into the
/// destination unchanged, and conjoining with an immediate zero always
/// zeroes the destination — for every register file and every ADD or AND
/// encoding whose immediate field is zero.
pub proof fn lemma_immediate_zero(pre: VmView, post_add: VmView, post_and: VmView, instr: u16)
    requires
        pre.gpr.len() == 8,
        imm_mode(instr),
        instr & 0x1f == 0,
    ensures
        add_post(pre, post_add, instr) ==> post_add.gpr[dst(instr) as int] == pre.gpr[sr1(
            instr,
        ) as int],
        and_post(pre, post_and, instr) ==> post_and.gpr[dst(instr) as int] == 0,
{
    lemma_fields_in_range(instr);
    assert(sext(0, 5) == 0) by (bit_vector);
    let v = pre.gpr[sr1(instr) as int];
    assert(v & 0 == 0) by (bit_vector);
}

/// Indirection: when memory holds address `b` at the effective address `a`
/// of an LDI instruction and value `v` at `b`, executing it lands `v` in
/// the destination register, with flags to match and memory untouched.
/// Excluded are `a` or `b` on the keyboard status address, whose read is a
/// poll rather than a plain lookup.
pub proof fn lemma_ldi_indirection(
    pre: VmView,
    post: VmView,
    instr: u16,
    a: u16,
    b: u16,
    v: u16,
)
    requires
        pre.gpr.len() == 8,
        wadd(pre.pc, off9(instr)) == a,
        pre.mem[a as int] == b,
        pre.mem[b as int] == v,
        a != KBSR,
        b != KBSR,
        ldi_post(pre, post, instr),
    ensures
        post.gpr == pre.gpr.update(dst(instr) as int, v),
        post.gpr[dst(instr) as int] == v,
        post.cond == flag_for(v),
        post.mem == pre.mem,
{
    lemma_fields_in_range(instr);
    let (k1, k2) = choose|k1: Option<u8>, k2: Option<u8>| ldi_post_k(pre, post, instr, k1, k2);
    assert(ldi_post_k(pre, post, instr, k1, k2));
}

} // verus!
