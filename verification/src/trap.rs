//! The trap layer: the six console system calls reached through the TRAP
//! opcode. Every trap first links R7 to the address of the following
//! instruction; an unrecognized vector is a fatal configuration error and is
//! reported, never silently ignored.
use vstd::prelude::*;

use crate::defs::{trap_of, MEMORY_MAX, TRAP};
use crate::host;
use crate::instr::{lemma_fields_in_range, trapvect};
use crate::state::{flag_for, Memory, Registers, State, VmView};
use crate::bits::wadd;

verus! {

/// The machine after the R7 link every trap performs first.
pub open spec fn with_link(pre: VmView) -> VmView {
    VmView {
        gpr: pre.gpr.update(7, pre.pc),
        pc: pre.pc,
        cond: pre.cond,
        mem: pre.mem,
        running: pre.running,
    }
}

/// GETC under a fixed input byte `b`: R0 takes its code and the flags
/// follow, after the R7 link.
pub open spec fn getc_post_b(pre: VmView, post: VmView, b: u8) -> bool {
    let linked = with_link(pre);
    &&& post.gpr == linked.gpr.update(0, b as u16)
    &&& post.cond == flag_for(b as u16)
    &&& post.pc == pre.pc
    &&& post.mem == pre.mem
    &&& post.running == pre.running
}

/// IN under a fixed first character: like GETC with the character's code
/// truncated to a word; an empty line leaves R0 and the flags alone.
pub open spec fn in_post_c(pre: VmView, post: VmView, c: Option<u32>) -> bool {
    match c {
        Some(code) => {
            let linked = with_link(pre);
            &&& post.gpr == linked.gpr.update(0, code as u16)
            &&& post.cond == flag_for(code as u16)
            &&& post.pc == pre.pc
            &&& post.mem == pre.mem
            &&& post.running == pre.running
        },
        None => post == with_link(pre),
    }
}

/// What executing a TRAP instruction does to the machine, by vector. The
/// bytes the output traps print are fixed by `puts_bytes` and `putsp_bytes`
/// over the pre-state; the state itself only ever takes the R7 link, the
/// read traps' R0 and flags, and HALT's stop.
pub open spec fn trap_post(pre: VmView, post: VmView, instr: u16, r: Result<(), u16>) -> bool {
    match trap_of(trapvect(instr)) {
        None => {
            &&& r == Result::<(), u16>::Err(trapvect(instr))
            &&& post == with_link(pre)
        },
        Some(TRAP::GETC) => {
            &&& r is Ok
            &&& exists|b: u8| getc_post_b(pre, post, b)
        },
        Some(TRAP::OUT) => r is Ok && post == with_link(pre),
        Some(TRAP::PUTS) => r is Ok && post == with_link(pre),
        Some(TRAP::IN) => {
            &&& r is Ok
            &&& exists|c: Option<u32>| in_post_c(pre, post, c)
        },
        Some(TRAP::PUTSP) => r is Ok && post == with_link(pre),
        Some(TRAP::HALT) => {
            &&& r is Ok
            &&& post == VmView { running: false, ..with_link(pre) }
        },
    }
}

/// The low bytes of the words from `a` up to but not past the first zero
/// word, scanning at most `fuel` words: what PUTS prints.
pub open spec fn puts_bytes(m: Seq<u16>, a: u16, fuel: nat) -> Seq<u8>
    decreases fuel,
{
    if fuel == 0 {
        Seq::empty()
    } else if m[a as int] == 0 {
        Seq::empty()
    } else {
        seq![(m[a as int] & 0xff) as u8] + puts_bytes(m, wadd(a, 1), (fuel - 1) as nat)
    }
}

/// The non-zero bytes of one packed word, low byte first: what PUTSP prints
/// for each word.
pub open spec fn putsp_word_bytes(w: u16) -> Seq<u8> {
    let lo = (w & 0xff) as u8;
    let hi = (w >> 8) as u8;
    (if lo != 0 {
        seq![lo]
    } else {
        Seq::<u8>::empty()
    }) + (if hi != 0 {
        seq![hi]
    } else {
        Seq::<u8>::empty()
    })
}

/// The packed-string bytes from `a` up to but not past the first zero word,
/// scanning at most `fuel` words: what PUTSP prints.
pub open spec fn putsp_bytes(m: Seq<u16>, a: u16, fuel: nat) -> Seq<u8>
    decreases fuel,
{
    if fuel == 0 || m[a as int] == 0 {
        Seq::empty()
    } else {
        putsp_word_bytes(m[a as int]) + putsp_bytes(m, wadd(a, 1), (fuel - 1) as nat)
    }
}

/// Both bytes of a word fit in a byte.
proof fn lemma_word_bytes(w: u16)
    by (bit_vector)
    ensures
        w & 0xff < 256,
        w >> 8 < 256,
{
}

/// Collects the string a zero-terminated one-character-per-word sequence
/// holds, starting at `start` and stopping at the zero terminator without
/// reading past it (or after one full sweep of memory, if no terminator
/// exists).
pub fn puts_chars(mem: &Memory, start: u16) -> (r: Vec<u8>)
    requires
        mem.wf(),
    ensures
        r@ == puts_bytes(mem@, start, MEMORY_MAX as nat),
{
    let mut out: Vec<u8> = Vec::new();
    let mut addr = start;
    let mut n: usize = 0;
    while n < MEMORY_MAX
        invariant
            mem.wf(),
            n <= MEMORY_MAX,
            puts_bytes(mem@, start, MEMORY_MAX as nat) == out@ + puts_bytes(
                mem@,
                addr,
                (MEMORY_MAX - n) as nat,
            ),
        decreases MEMORY_MAX - n,
    {
        let w = mem.data[addr as usize];
        if w == 0 {
            proof {
                assert(out@ + puts_bytes(mem@, addr, (MEMORY_MAX - n) as nat) =~= out@);
            }
            return out;
        }
        proof {
            lemma_word_bytes(w);
            assert(out@ + puts_bytes(mem@, addr, (MEMORY_MAX - n) as nat) =~= out@.push(
                (w & 0xff) as u8,
            ) + puts_bytes(mem@, wadd(addr, 1), (MEMORY_MAX - n - 1) as nat));
        }
        out.push((w & 0xff) as u8);
        addr = addr.wrapping_add(1);
        n = n + 1;
    }
    proof {
        assert(out@ + puts_bytes(mem@, addr, 0) =~= out@);
    }
    out
}

/// Collects the string a zero-terminated two-characters-per-word sequence
/// holds, low byte before high byte, skipping zero bytes within a word and
/// stopping at the zero word.
pub fn putsp_chars(mem: &Memory, start: u16) -> (r: Vec<u8>)
    requires
        mem.wf(),
    ensures
        r@ == putsp_bytes(mem@, start, MEMORY_MAX as nat),
{
    let mut out: Vec<u8> = Vec::new();
    let mut addr = start;
    let mut n: usize = 0;
    while n < MEMORY_MAX
        invariant
            mem.wf(),
            n <= MEMORY_MAX,
            putsp_bytes(mem@, start, MEMORY_MAX as nat) == out@ + putsp_bytes(
                mem@,
                addr,
                (MEMORY_MAX - n) as nat,
            ),
        decreases MEMORY_MAX - n,
    {
        let w = mem.data[addr as usize];
        if w == 0 {
            proof {
                assert(out@ + putsp_bytes(mem@, addr, (MEMORY_MAX - n) as nat) =~= out@);
            }
            return out;
        }
        let ghost out0 = out@;
        proof {
            lemma_word_bytes(w);
        }
        let lo = (w & 0xff) as u8;
        let hi = (w >> 8) as u8;
        if lo != 0 {
            out.push(lo);
        }
        if hi != 0 {
            out.push(hi);
        }
        proof {
            assert(out@ =~= out0 + putsp_word_bytes(w));
            assert(out0 + putsp_bytes(mem@, addr, (MEMORY_MAX - n) as nat) =~= (out0
                + putsp_word_bytes(w)) + putsp_bytes(
                mem@,
                wadd(addr, 1),
                (MEMORY_MAX - n - 1) as nat,
            ));
        }
        addr = addr.wrapping_add(1);
        n = n + 1;
    }
    proof {
        assert(out@ + putsp_bytes(mem@, addr, 0) =~= out@);
    }
    out
}

/// The byte the OUT trap prints: the low byte of R0.
pub fn out_byte(reg: &Registers) -> (b: u8)
    requires
        reg.wf(),
    ensures
        b == (reg.gpr@[0] & 0xff) as u8,
{
    proof {
        lemma_word_bytes(reg.gpr@[0]);
    }
    (reg.gpr[0] & 0xff) as u8
}

/// Prints a byte string, one character per byte.
fn write_bytes(bytes: &Vec<u8>) {
    let mut i: usize = 0;
    while i < bytes.len()
        decreases bytes.len() - i,
    {
        host::put_byte(bytes[i]);
        i = i + 1;
    }
}

/// TRAP: links R7, then runs the console routine the vector selects; an
/// undefined vector is returned as the error, with only the link performed.
pub fn do_trap(instr: u16, state: &mut State) -> (r: Result<(), u16>)
    requires
        old(state).wf(),
    ensures
        final(state).wf(),
        trap_post(old(state)@, final(state)@, instr, r),
{
    proof {
        lemma_fields_in_range(instr);
    }
    state.reg.gpr[7] = state.reg.pc;
    let vector = instr & 0xFF;

    match TRAP::from_code(vector) {
        None => Err(vector),
        Some(TRAP::GETC) => {
            let b = host::read_byte();
            state.reg.gpr[0] = b as u16;
            state.reg.update_flags(0);
            proof {
                assert(getc_post_b(old(state)@, state@, b));
            }
            Ok(())
        },
        Some(TRAP::OUT) => {
            let c = out_byte(&state.reg);
            host::put_byte(c);
            Ok(())
        },
        Some(TRAP::PUTS) => {
            let s = puts_chars(&state.mem, state.reg.gpr[0]);
            write_bytes(&s);
            Ok(())
        },
        Some(TRAP::IN) => {
            host::put_text("Enter a character: ");
            match host::read_line_first_char() {
                Some(code) => {
                    host::put_char_code(code);
                    state.reg.gpr[0] = #[verifier::truncate] (code as u16);
                    state.reg.update_flags(0);
                    proof {
                        assert(in_post_c(old(state)@, state@, Some(code)));
                    }
                },
                None => {
                    proof {
                        assert(in_post_c(old(state)@, state@, None::<u32>));
                    }
                },
            }
            Ok(())
        },
        Some(TRAP::PUTSP) => {
            let s = putsp_chars(&state.mem, state.reg.gpr[0]);
            write_bytes(&s);
            Ok(())
        },
        Some(TRAP::HALT) => {
            host::put_text("HALT\n");
            state.running = false;
            Ok(())
        },
    }
}

} // verus!
