//! The machine's mutable state: the register file with its flag-update
//! policy, the 64K-word memory with its memory-mapped keyboard window, and
//! the run flag that the execution loop observes.
use vstd::prelude::*;

use crate::defs::{FL_NEG, FL_POS, FL_ZRO, KBDR, KBSR, MEMORY_MAX, PC_START, R};
use crate::host;

verus! {

/// Ghost image of the whole machine, over which every contract speaks.
pub ghost struct VmView {
    /// The eight general registers R0..R7.
    pub gpr: Seq<u16>,
    /// The program counter.
    pub pc: u16,
    /// The condition code, one of `FL_POS`, `FL_ZRO`, `FL_NEG`.
    pub cond: u16,
    /// All 65536 memory words.
    pub mem: Seq<u16>,
    /// Whether the execution loop may fetch another instruction.
    pub running: bool,
}

/// The condition code demanded by a register value: zero for 0, negative
/// when bit 15 is set, positive otherwise. Exactly one flag is ever set.
pub open spec fn flag_for(v: u16) -> u16 {
    if v == 0 {
        FL_ZRO
    } else if v >= 0x8000 {
        FL_NEG
    } else {
        FL_POS
    }
}

/// Whether a condition-code word is one of the three one-hot flag values.
pub open spec fn flag_valid(f: u16) -> bool {
    f == FL_POS || f == FL_ZRO || f == FL_NEG
}

/// The memory after one poll of the keyboard: an available key sets the
/// status word's high bit and lands its code in the data word; otherwise the
/// status word is cleared and the data word keeps its last value.
pub open spec fn poll_update(m: Seq<u16>, key: Option<u8>) -> Seq<u16> {
    match key {
        Some(b) => m.update(KBSR as int, 0x8000).update(KBDR as int, b as u16),
        None => m.update(KBSR as int, 0),
    }
}

/// The memory after a read at `a`: only a read of the keyboard status
/// address has a side effect, namely one poll.
pub open spec fn mem_after_read(m: Seq<u16>, a: u16, key: Option<u8>) -> Seq<u16> {
    if a == KBSR {
        poll_update(m, key)
    } else {
        m
    }
}

/// The value held by the slot a register identifier names; the `COUNT`
/// marker names no slot.
pub open spec fn slot_value(rf: Registers, r: R) -> u16 {
    match r {
        R::R0 => rf.gpr@[0],
        R::R1 => rf.gpr@[1],
        R::R2 => rf.gpr@[2],
        R::R3 => rf.gpr@[3],
        R::R4 => rf.gpr@[4],
        R::R5 => rf.gpr@[5],
        R::R6 => rf.gpr@[6],
        R::R7 => rf.gpr@[7],
        R::PC => rf.pc,
        R::COND => rf.cond,
        R::COUNT => rf.cond,
    }
}

pub struct Registers {
    /// R0..R7.
    pub gpr: Vec<u16>,
    /// The program counter.
    pub pc: u16,
    /// The condition code.
    pub cond: u16,
}

impl Registers {
    /// Eight general registers, and a condition code that is always one of
    /// the three one-hot flags.
    pub open spec fn wf(&self) -> bool {
        &&& self.gpr@.len() == 8
        &&& flag_valid(self.cond)
    }

    /// A register file in its power-on state: all general registers zero,
    /// the zero flag set, the program counter at the start address.
    pub fn new() -> (r: Registers)
        ensures
            r.wf(),
            r.gpr@ == Seq::new(8, |i: int| 0u16),
            r.pc == PC_START,
            r.cond == FL_ZRO,
    {
        let gpr: Vec<u16> = vec![0u16; 8];
        proof {
            assert(gpr@ =~= Seq::new(8, |i: int| 0u16));
        }
        Registers { gpr, pc: PC_START, cond: FL_ZRO }
    }

    /// The value of the slot a register identifier names; `COUNT` counts
    /// the slots and names none.
    pub fn read(&self, r: R) -> (v: u16)
        requires
            self.wf(),
            !(r is COUNT),
        ensures
            v == slot_value(*self, r),
    {
        match r {
            R::R0 => self.gpr[0],
            R::R1 => self.gpr[1],
            R::R2 => self.gpr[2],
            R::R3 => self.gpr[3],
            R::R4 => self.gpr[4],
            R::R5 => self.gpr[5],
            R::R6 => self.gpr[6],
            R::R7 => self.gpr[7],
            R::PC => self.pc,
            R::COND => self.cond,
            R::COUNT => self.cond,
        }
    }

    /// Sets the condition code from the current value of general register
    /// `r`: zero, negative or positive, exactly one of the three.
    pub fn update_flags(&mut self, r: u16)
        requires
            old(self).wf(),
            r < 8,
        ensures
            final(self).wf(),
            final(self).gpr == old(self).gpr,
            final(self).pc == old(self).pc,
            final(self).cond == flag_for(old(self).gpr@[r as int]),
    {
        let v = self.gpr[r as usize];
        if v == 0 {
            self.cond = FL_ZRO;
        } else if v >= 0x8000 {
            self.cond = FL_NEG;
        } else {
            self.cond = FL_POS;
        }
    }
}

pub struct Memory {
    /// The 65536 memory words.
    pub data: Vec<u16>,
}

impl Memory {
    /// One word for every 16-bit address.
    pub open spec fn wf(&self) -> bool {
        self.data@.len() == MEMORY_MAX
    }

    pub open spec fn view(&self) -> Seq<u16> {
        self.data@
    }

    /// All-zero memory.
    pub fn new() -> (r: Memory)
        ensures
            r.wf(),
            r@ == Seq::new(MEMORY_MAX as nat, |i: int| 0u16),
    {
        let data: Vec<u16> = vec![0u16; MEMORY_MAX];
        proof {
            assert(data@ =~= Seq::new(MEMORY_MAX as nat, |i: int| 0u16));
        }
        Memory { data }
    }

    /// Records the outcome of one keyboard poll in the two mapped words; all
    /// other addresses keep their values.
    pub fn apply_keyboard_poll(&mut self, key: Option<u8>)
        requires
            old(self).wf(),
        ensures
            final(self).wf(),
            final(self)@ == poll_update(old(self)@, key),
    {
        match key {
            Some(b) => {
                self.data[KBSR as usize] = 0x8000;
                self.data[KBDR as usize] = b as u16;
            },
            None => {
                self.data[KBSR as usize] = 0;
            },
        }
    }

    /// Reads the word at `address`. A read of the keyboard status address
    /// first polls the console, so the memory seen afterwards is the old
    /// memory after one poll of some outcome; every other read is a plain
    /// lookup with no side effect.
    pub fn read(&mut self, address: u16) -> (r: u16)
        requires
            old(self).wf(),
        ensures
            final(self).wf(),
            exists|k: Option<u8>| final(self)@ == mem_after_read(old(self)@, address, k),
            address != KBSR ==> final(self)@ == old(self)@,
            r == final(self)@[address as int],
    {
        if address == KBSR {
            let key: Option<u8> = if host::check_key() {
                Some(host::read_byte())
            } else {
                None
            };
            self.apply_keyboard_poll(key);
            proof {
                assert(self@ == mem_after_read(old(self)@, address, key));
            }
        } else {
            proof {
                assert(self@ == mem_after_read(old(self)@, address, None));
            }
        }
        self.data[address as usize]
    }

    /// Writes `value` at `address`; every address, the mapped ones included,
    /// is plain storage on the write path.
    pub fn write(&mut self, address: u16, value: u16)
        requires
            old(self).wf(),
        ensures
            final(self).wf(),
            final(self)@ == old(self)@.update(address as int, value),
    {
        self.data[address as usize] = value;
    }
}

pub struct State {
    /// The register file.
    pub reg: Registers,
    /// The memory.
    pub mem: Memory,
    /// Whether the execution loop may fetch another instruction.
    pub running: bool,
}

impl State {
    pub open spec fn wf(&self) -> bool {
        &&& self.reg.wf()
        &&& self.mem.wf()
    }

    pub open spec fn view(&self) -> VmView {
        VmView {
            gpr: self.reg.gpr@,
            pc: self.reg.pc,
            cond: self.reg.cond,
            mem: self.mem@,
            running: self.running,
        }
    }

    /// A machine in its power-on state: zeroed registers and memory, the
    /// zero flag set, the program counter at the start address, running.
    pub fn new() -> (r: State)
        ensures
            r.wf(),
            r@.gpr == Seq::new(8, |i: int| 0u16),
            r@.pc == PC_START,
            r@.cond == FL_ZRO,
            r@.mem == Seq::new(MEMORY_MAX as nat, |i: int| 0u16),
            r@.running,
    {
        State { reg: Registers::new(), mem: Memory::new(), running: true }
    }

    /// Whether the state meets the structural invariant the verified
    /// interpreter requires; unverified callers test this before running.
    pub fn is_well_formed(&self) -> (r: bool)
        ensures
            r == self.wf(),
    {
        self.reg.gpr.len() == 8 && (self.reg.cond == FL_POS || self.reg.cond == FL_ZRO
            || self.reg.cond == FL_NEG) && self.mem.data.len() == MEMORY_MAX
    }
}

/// The memory-mapped keyboard, seen through `poll_update`: with no key
/// pending a status read reports "not available" and leaves the data word
/// alone, however often it is repeated; an available key is surfaced by one
/// read, and the next empty poll withdraws the availability bit while the
/// data word keeps the delivered code, so no key is delivered twice.
pub proof fn lemma_keyboard_polling(m: Seq<u16>, b: u8)
    requires
        m.len() == MEMORY_MAX,
    ensures
        poll_update(m, None)[KBSR as int] < 0x8000,
        poll_update(m, None)[KBDR as int] == m[KBDR as int],
        poll_update(poll_update(m, None), None) =~= poll_update(m, None),
        poll_update(m, Some(b))[KBSR as int] == 0x8000,
        poll_update(m, Some(b))[KBDR as int] == b as u16,
        poll_update(poll_update(m, Some(b)), None)[KBSR as int] < 0x8000,
        poll_update(poll_update(m, Some(b)), None)[KBDR as int] == b as u16,
{
}

/// The flag-update policy: for every register value exactly one of the
/// three condition flags is chosen, and it is the one consistent with the
/// value — zero for 0, negative when bit 15 is set, positive otherwise.
pub proof fn lemma_flag_exclusive(v: u16)
    ensures
        flag_valid(flag_for(v)),
        flag_for(v) == FL_ZRO <==> v == 0,
        flag_for(v) == FL_NEG <==> v >= 0x8000,
        flag_for(v) == FL_POS <==> 0 < v < 0x8000,
        FL_POS != FL_ZRO && FL_ZRO != FL_NEG && FL_POS != FL_NEG,
{
}

} // verus!
