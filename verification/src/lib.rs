//! An emulator for a small 16-bit educational instruction-set architecture:
//! eight general registers, a program counter, a one-hot condition code, a
//! flat 64K-word memory with a memory-mapped keyboard window, sixteen opcodes
//! and a console trap layer.

pub mod bits;
pub mod defs;
pub mod exec;
mod host;
pub mod image;
pub mod instr;
pub mod state;
pub mod trap;

pub use crate::bits::{sign_extend, swap16};
pub use crate::defs::{FL, MR, OP, R, TRAP};
pub use crate::exec::{run_steps, step};
pub use crate::image::{load_image, ImageError};
pub use crate::instr::{
    do_add, do_and, do_br, do_jmp, do_jsr, do_ld, do_ldi, do_ldr, do_lea, do_not, do_st, do_sti,
    do_str,
};
pub use crate::state::{Memory, Registers, State};
pub use crate::trap::{do_trap, out_byte, puts_chars, putsp_chars};
