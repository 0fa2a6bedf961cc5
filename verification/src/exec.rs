//! The execution loop: fetch the word at PC, advance PC, dispatch on the
//! top four bits. RTI and the reserved opcode are not simulated and stop the
//! machine; TRAP HALT stops it through the trap layer; an undefined trap
//! vector aborts the run as an error.
use vstd::prelude::*;

use crate::bits::wadd;
use crate::defs::{op_of, opcode, trap_of, OP, TRAP};
use crate::instr::{
    add_post, and_post, br_post, do_add, do_and, do_br, do_jmp, do_jsr, do_ld, do_ldi, do_ldr,
    do_lea, do_not, do_st, do_sti, do_str, jmp_post, jsr_post, ld_post, ld_post_k, ldi_post,
    ldi_post_k, ldr_post, ldr_post_k, lea_post, lemma_fields_in_range, not_post, st_post,
    sti_post, sti_post_k, str_post, trapvect,
};
use crate::state::{mem_after_read, State, VmView};
use crate::trap::{do_trap, getc_post_b, in_post_c, trap_post};

verus! {

/// One machine step under a fixed poll outcome `k` for the fetch: the word
/// at PC is read (polling if PC sits on the keyboard status address), PC
/// moves past it, and the instruction's own post relation ties the rest.
pub open spec fn step_post_k(pre: VmView, post: VmView, k: Option<u8>, r: Result<(), u16>) -> bool {
    let m1 = mem_after_read(pre.mem, pre.pc, k);
    let instr = m1[pre.pc as int];
    let mid = VmView { pc: wadd(pre.pc, 1), mem: m1, ..pre };
    match op_of(opcode(instr)) {
        OP::BR => r is Ok && br_post(mid, post, instr),
        OP::ADD => r is Ok && add_post(mid, post, instr),
        OP::LD => r is Ok && ld_post(mid, post, instr),
        OP::ST => r is Ok && st_post(mid, post, instr),
        OP::JSR => r is Ok && jsr_post(mid, post, instr),
        OP::AND => r is Ok && and_post(mid, post, instr),
        OP::LDR => r is Ok && ldr_post(mid, post, instr),
        OP::STR => r is Ok && str_post(mid, post, instr),
        OP::RTI => r is Ok && post == VmView { running: false, ..mid },
        OP::NOT => r is Ok && not_post(mid, post, instr),
        OP::LDI => r is Ok && ldi_post(mid, post, instr),
        OP::STI => r is Ok && sti_post(mid, post, instr),
        OP::JMP => r is Ok && jmp_post(mid, post, instr),
        OP::RES => r is Ok && post == VmView { running: false, ..mid },
        OP::LEA => r is Ok && lea_post(mid, post, instr),
        OP::TRAP => trap_post(mid, post, instr, r),
    }
}

/// One machine step, for some outcome of the fetch's possible poll.
pub open spec fn step_post(pre: VmView, post: VmView, r: Result<(), u16>) -> bool {
    exists|k: Option<u8>| step_post_k(pre, post, k, r)
}

/// Fetches, advances PC and executes one instruction.
pub fn step(state: &mut State) -> (r: Result<(), u16>)
    requires
        old(state).wf(),
        old(state).running,
    ensures
        final(state).wf(),
        step_post(old(state)@, final(state)@, r),
        r matches Err(v) ==> trap_of(v) is None,
{
    let pc = state.reg.pc;
    let instr = state.mem.read(pc);
    let ghost m1 = state.mem@;
    let ghost k = choose|k: Option<u8>| m1 == mem_after_read(old(state).mem@, pc, k);
    state.reg.pc = pc.wrapping_add(1);
    let ghost mid = state@;
    proof {
        lemma_fields_in_range(instr);
    }

    let result: Result<(), u16> = match OP::from_code(instr >> 12) {
        Some(OP::BR) => {
            do_br(instr, state);
            Ok(())
        },
        Some(OP::ADD) => {
            do_add(instr, state);
            Ok(())
        },
        Some(OP::LD) => {
            do_ld(instr, state);
            Ok(())
        },
        Some(OP::ST) => {
            do_st(instr, state);
            Ok(())
        },
        Some(OP::JSR) => {
            do_jsr(instr, state);
            Ok(())
        },
        Some(OP::AND) => {
            do_and(instr, state);
            Ok(())
        },
        Some(OP::LDR) => {
            do_ldr(instr, state);
            Ok(())
        },
        Some(OP::STR) => {
            do_str(instr, state);
            Ok(())
        },
        Some(OP::RTI) => {
            // not simulated: a deliberate stop, not an error
            state.running = false;
            Ok(())
        },
        Some(OP::NOT) => {
            do_not(instr, state);
            Ok(())
        },
        Some(OP::LDI) => {
            do_ldi(instr, state);
            Ok(())
        },
        Some(OP::STI) => {
            do_sti(instr, state);
            Ok(())
        },
        Some(OP::JMP) => {
            do_jmp(instr, state);
            Ok(())
        },
        Some(OP::RES) => {
            // reserved: a deliberate stop, not an error
            state.running = false;
            Ok(())
        },
        Some(OP::LEA) => {
            do_lea(instr, state);
            Ok(())
        },
        Some(OP::TRAP) => do_trap(instr, state),
        None => Ok(()),  // unreachable: the opcode field has four bits
    };
    proof {
        assert(step_post_k(old(state)@, state@, k, result));
    }
    result
}

/// `post` is what `pre` becomes after exactly `n` machine steps, each taken
/// with the machine still running and none hitting an undefined trap
/// vector.
pub open spec fn runs_n(pre: VmView, post: VmView, n: nat) -> bool
    decreases n,
{
    if n == 0 {
        post == pre
    } else {
        exists|mid: VmView, r: Result<(), u16>|
            {
                &&& pre.running
                &&& r is Ok
                &&& step_post(pre, mid, r)
                &&& runs_n(mid, post, (n - 1) as nat)
            }
    }
}

/// A chain of steps grows at its end: one more successful step from a
/// reached state is a longer chain.
pub proof fn lemma_runs_n_extend(
    pre: VmView,
    mid: VmView,
    post: VmView,
    n: nat,
    rok: Result<(), u16>,
)
    requires
        runs_n(pre, mid, n),
        mid.running,
        rok is Ok,
        step_post(mid, post, rok),
    ensures
        runs_n(pre, post, n + 1),
    decreases n,
{
    if n == 0 {
        assert(exists|m: VmView, r: Result<(), u16>|
            {
                &&& pre.running
                &&& r is Ok
                &&& step_post(pre, m, r)
                &&& runs_n(m, post, 0)
            }) by {
            assert(pre.running && rok is Ok && step_post(pre, post, rok) && runs_n(post, post, 0));
        }
    } else {
        let (m, r0) = choose|m: VmView, r0: Result<(), u16>|
            {
                &&& pre.running
                &&& r0 is Ok
                &&& step_post(pre, m, r0)
                &&& runs_n(m, mid, (n - 1) as nat)
            };
        lemma_runs_n_extend(m, mid, post, (n - 1) as nat, rok);
        assert(exists|m2: VmView, r2: Result<(), u16>|
            {
                &&& pre.running
                &&& r2 is Ok
                &&& step_post(pre, m2, r2)
                &&& runs_n(m2, post, n as nat)
            }) by {
            assert(pre.running && r0 is Ok && step_post(pre, m, r0) && runs_n(m, post, n as nat));
        }
    }
}

/// Runs at most `max_steps` machine steps, stopping early when the machine
/// halts or an undefined trap vector is hit. `Ok(true)` says the machine is
/// halted; `Ok(false)` says the budget ran out with the machine still
/// running; the caller repeats the call for an unbounded run. The final
/// state is always one a chain of machine steps reaches from the initial
/// one, and a machine that is already halted is left untouched: nothing
/// more is fetched.
pub fn run_steps(state: &mut State, max_steps: usize) -> (r: Result<bool, u16>)
    requires
        old(state).wf(),
    ensures
        final(state).wf(),
        r matches Ok(halted) ==> (halted <==> !final(state).running),
        r matches Ok(halted) ==> exists|n: nat|
            n <= max_steps && runs_n(old(state)@, final(state)@, n),
        r matches Err(v) ==> trap_of(v) is None && exists|n: nat, mid: VmView|
            {
                &&& n < max_steps
                &&& runs_n(old(state)@, mid, n)
                &&& mid.running
                &&& step_post(mid, final(state)@, Err(v))
            },
        r == Ok::<bool, u16>(false) ==> runs_n(old(state)@, final(state)@, max_steps as nat),
        !old(state).running ==> r == Ok::<bool, u16>(true) && final(state)@ == old(state)@,
{
    let mut i: usize = 0;
    let ghost mut n_done: nat = 0;
    while i < max_steps
        invariant
            state.wf(),
            i <= max_steps,
            n_done == i,
            runs_n(old(state)@, state@, n_done),
        decreases max_steps - i,
    {
        if !state.running {
            return Ok(true);
        }
        let ghost before = state@;
        let stepped = step(state);
        match stepped {
            Ok(_) => {
                proof {
                    lemma_runs_n_extend(old(state)@, before, state@, n_done, stepped);
                    n_done = n_done + 1;
                }
            },
            Err(v) => {
                proof {
                    assert(runs_n(old(state)@, before, n_done) && before.running && step_post(
                        before,
                        state@,
                        Err(v),
                    ));
                }
                return Err(v);
            },
        }
        i = i + 1;
    }
    if state.running {
        Ok(false)
    } else {
        Ok(true)
    }
}

/// A subroutine call always links first: after a step that fetched a JSR or
/// JSRR instruction, R7 holds the address of the instruction after the call
/// — the fetch address plus one — whatever form the jump took.
pub proof fn lemma_jsr_links_return_address(
    pre: VmView,
    post: VmView,
    k: Option<u8>,
    r: Result<(), u16>,
)
    requires
        pre.gpr.len() == 8,
        step_post_k(pre, post, k, r),
        op_of(opcode(mem_after_read(pre.mem, pre.pc, k)[pre.pc as int])) == OP::JSR,
    ensures
        post.gpr[7] == wadd(pre.pc, 1),
{
}

/// Only three encounters stop a running machine: the HALT trap, RTI and the
/// reserved opcode. Every other successful step leaves it running.
pub proof fn lemma_run_state_transitions(
    pre: VmView,
    post: VmView,
    k: Option<u8>,
    r: Result<(), u16>,
)
    requires
        pre.running,
        step_post_k(pre, post, k, r),
        r is Ok,
    ensures
        ({
            let instr = mem_after_read(pre.mem, pre.pc, k)[pre.pc as int];
            !post.running <==> (op_of(opcode(instr)) == OP::RTI || op_of(opcode(instr)) == OP::RES
                || (op_of(opcode(instr)) == OP::TRAP && trap_of(trapvect(instr)) == Some(
                TRAP::HALT,
            )))
        }),
{
    let m1 = mem_after_read(pre.mem, pre.pc, k);
    let instr = m1[pre.pc as int];
    let mid = VmView { pc: wadd(pre.pc, 1), mem: m1, ..pre };
    match op_of(opcode(instr)) {
        OP::LD => {
            let kk = choose|kk: Option<u8>| ld_post_k(mid, post, instr, kk);
            assert(post.running == pre.running);
        },
        OP::LDR => {
            let kk = choose|kk: Option<u8>| ldr_post_k(mid, post, instr, kk);
            assert(post.running == pre.running);
        },
        OP::LDI => {
            let (k1, k2) = choose|k1: Option<u8>, k2: Option<u8>|
                ldi_post_k(mid, post, instr, k1, k2);
            assert(post.running == pre.running);
        },
        OP::STI => {
            let kk = choose|kk: Option<u8>| sti_post_k(mid, post, instr, kk);
            assert(post.running == pre.running);
        },
        OP::TRAP => {
            match trap_of(trapvect(instr)) {
                Some(TRAP::GETC) => {
                    let b = choose|b: u8| getc_post_b(mid, post, b);
                    assert(post.running == pre.running);
                },
                Some(TRAP::IN) => {
                    let c = choose|c: Option<u32>| in_post_c(mid, post, c);
                    assert(post.running == pre.running);
                },
                _ => {
                },
            }
        },
        _ => {
        },
    }
}

} // verus!
