//! Architectural constants and the enumerations of the machine: register
//! identifiers, opcodes, trap vectors, condition flags and the memory-mapped
//! register addresses.
use vstd::prelude::*;

verus! {

/// Number of addressable memory words.
pub const MEMORY_MAX: usize = 65536;

/// Address the program counter holds when the machine starts.
pub const PC_START: u16 = 0x3000;

/// Keyboard status register: its high bit is set exactly when a key is
/// available.
pub const KBSR: u16 = 0xFE00;

/// Keyboard data register: holds the code of the last key surfaced by a
/// status read.
pub const KBDR: u16 = 0xFE02;

/// Condition-code value for a positive result.
pub const FL_POS: u16 = 1;

/// Condition-code value for a zero result.
pub const FL_ZRO: u16 = 2;

/// Condition-code value for a negative result.
pub const FL_NEG: u16 = 4;

// Registers
#[derive(Clone, Copy, PartialEq, Eq, Structural, Debug)]
pub enum R {
    R0,
    R1,
    R2,
    R3,
    R4,
    R5,
    R6,
    R7,
    PC,
    COND,
    COUNT,
}

// Opcodes, in the order given by the top four bits of an instruction word.
#[derive(Clone, Copy, PartialEq, Eq, Structural, Debug)]
pub enum OP {
    BR,
    ADD,
    LD,
    ST,
    JSR,
    AND,
    LDR,
    STR,
    RTI,
    NOT,
    LDI,
    STI,
    JMP,
    RES,
    LEA,
    TRAP,
}

// Trap routines
#[derive(Clone, Copy, PartialEq, Eq, Structural, Debug)]
pub enum TRAP {
    GETC,
    OUT,
    PUTS,
    IN,
    PUTSP,
    HALT,
}

// Condition flags
#[derive(Clone, Copy, PartialEq, Eq, Structural, Debug)]
pub enum FL {
    POS,
    ZRO,
    NEG,
}

// Memory-mapped registers
#[derive(Clone, Copy, PartialEq, Eq, Structural, Debug)]
pub enum MR {
    KBSR,
    KBDR,
}

/// The opcode field of an instruction word: its top four bits.
pub open spec fn opcode(instr: u16) -> u16 {
    instr >> 12
}

/// The opcode selected by a four-bit code.
pub open spec fn op_of(code: u16) -> OP {
    if code == 0 {
        OP::BR
    } else if code == 1 {
        OP::ADD
    } else if code == 2 {
        OP::LD
    } else if code == 3 {
        OP::ST
    } else if code == 4 {
        OP::JSR
    } else if code == 5 {
        OP::AND
    } else if code == 6 {
        OP::LDR
    } else if code == 7 {
        OP::STR
    } else if code == 8 {
        OP::RTI
    } else if code == 9 {
        OP::NOT
    } else if code == 10 {
        OP::LDI
    } else if code == 11 {
        OP::STI
    } else if code == 12 {
        OP::JMP
    } else if code == 13 {
        OP::RES
    } else if code == 14 {
        OP::LEA
    } else {
        OP::TRAP
    }
}

/// The trap routine selected by a trap vector, if the vector is defined.
pub open spec fn trap_of(vector: u16) -> Option<TRAP> {
    if vector == 0x20 {
        Some(TRAP::GETC)
    } else if vector == 0x21 {
        Some(TRAP::OUT)
    } else if vector == 0x22 {
        Some(TRAP::PUTS)
    } else if vector == 0x23 {
        Some(TRAP::IN)
    } else if vector == 0x24 {
        Some(TRAP::PUTSP)
    } else if vector == 0x25 {
        Some(TRAP::HALT)
    } else {
        None
    }
}

impl OP {
    /// Decodes a four-bit opcode value; values above 15 name no opcode.
    pub fn from_code(code: u16) -> (r: Option<OP>)
        ensures
            code < 16 ==> r == Some(op_of(code)),
            code >= 16 ==> r is None,
    {
        match code {
            0 => Some(OP::BR),
            1 => Some(OP::ADD),
            2 => Some(OP::LD),
            3 => Some(OP::ST),
            4 => Some(OP::JSR),
            5 => Some(OP::AND),
            6 => Some(OP::LDR),
            7 => Some(OP::STR),
            8 => Some(OP::RTI),
            9 => Some(OP::NOT),
            10 => Some(OP::LDI),
            11 => Some(OP::STI),
            12 => Some(OP::JMP),
            13 => Some(OP::RES),
            14 => Some(OP::LEA),
            15 => Some(OP::TRAP),
            _ => None,
        }
    }
}

impl TRAP {
    /// Decodes a trap vector; only the six console routines are defined.
    pub fn from_code(vector: u16) -> (r: Option<TRAP>)
        ensures
            r == trap_of(vector),
    {
        match vector {
            0x20 => Some(TRAP::GETC),
            0x21 => Some(TRAP::OUT),
            0x22 => Some(TRAP::PUTS),
            0x23 => Some(TRAP::IN),
            0x24 => Some(TRAP::PUTSP),
            0x25 => Some(TRAP::HALT),
            _ => None,
        }
    }
}

impl FL {
    /// The one-hot condition-code word this flag stands for.
    pub fn value(self) -> (r: u16)
        ensures
            self is POS ==> r == FL_POS,
            self is ZRO ==> r == FL_ZRO,
            self is NEG ==> r == FL_NEG,
    {
        match self {
            FL::POS => FL_POS,
            FL::ZRO => FL_ZRO,
            FL::NEG => FL_NEG,
        }
    }
}

impl MR {
    /// The address this memory-mapped register occupies.
    pub fn address(self) -> (r: u16)
        ensures
            self is KBSR ==> r == KBSR,
            self is KBDR ==> r == KBDR,
    {
        match self {
            MR::KBSR => KBSR,
            MR::KBDR => KBDR,
        }
    }
}

} // verus!
