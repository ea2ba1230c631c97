//! The complete mutable snapshot of the virtual machine, and its
//! mathematical view.

use vstd::prelude::*;

use crate::ram::{font_table, Ram, FONT_BYTES, MEMORY_SIZE, PROGRAM_START};
use crate::stack::Stack;

verus! {

pub const NUM_REGISTERS: usize = 16;

pub const DISPLAY_WIDTH: usize = 64;

pub const DISPLAY_HEIGHT: usize = 32;

/// The mathematical view of a machine state: plain sequences and scalars,
/// with no fixed-size-array or capacity bookkeeping left.
#[verifier::ext_equal]
pub ghost struct StateV {
    pub mem: Seq<u8>,
    pub regs: Seq<u8>,
    pub stack: Seq<u16>,
    pub grid: Seq<Seq<u8>>,
    pub delay_timer: u8,
    pub sound_timer: u8,
    pub pc: int,
    pub i: u16,
    pub should_draw: bool,
    pub waiting_for_key: bool,
    pub key_register_index: int,
    pub play_audio: bool,
}

/// The all-zero display.
pub open spec fn blank_grid() -> Seq<Seq<u8>> {
    Seq::new(DISPLAY_HEIGHT as nat, |r: int| Seq::new(DISPLAY_WIDTH as nat, |c: int| 0u8))
}

/// The display buffer as a sequence of pixel rows.
pub open spec fn grid_view(b: [[u8; 64]; 32]) -> Seq<Seq<u8>> {
    Seq::new(DISPLAY_HEIGHT as nat, |r: int| b@[r]@)
}

/// What a freshly loaded machine looks like: font in place, the program
/// at offset 512, the rest of memory zero, the program counter at 512,
/// and every register, timer, stack entry, pixel and flag cleared.
pub open spec fn is_initial_state(s: StateV, program: Seq<u8>) -> bool {
    &&& s.pc == PROGRAM_START
    &&& (forall|k: int| 0 <= k < NUM_REGISTERS ==> s.regs[k] == 0)
    &&& s.delay_timer == 0
    &&& s.sound_timer == 0
    &&& s.i == 0
    &&& s.stack == Seq::<u16>::empty()
    &&& s.grid == blank_grid()
    &&& !s.should_draw
    &&& !s.waiting_for_key
    &&& !s.play_audio
    &&& s.key_register_index == 0
    &&& s.mem.len() == MEMORY_SIZE
    &&& s.mem.subrange(0, FONT_BYTES as int) == font_table()
    &&& (forall|k: int| FONT_BYTES <= k < PROGRAM_START ==> s.mem[k] == 0)
    &&& s.mem.subrange(PROGRAM_START as int, PROGRAM_START + program.len()) == program
    &&& (forall|k: int|
        PROGRAM_START + program.len() <= k < MEMORY_SIZE ==> s.mem[k] == 0)
}

/// The machine state: memory, registers, call stack, display buffer,
/// timers, program counter, address register and interpreter flags.
#[derive(Clone, Copy)]
pub struct State {
    pub ram: Ram,
    pub registers: [u8; 16],
    pub stack: Stack,
    pub display_buffer: [[u8; 64]; 32],
    pub delay_timer: u8,
    pub sound_timer: u8,
    /// Program counter.
    pub pc: usize,
    /// Address register, used as a base pointer by memory-indexed
    /// instructions.
    pub i: u16,
    pub should_draw: bool,
    pub waiting_for_key: bool,
    pub key_register_index: usize,
    pub play_audio: bool,
}

impl View for State {
    type V = StateV;

    open spec fn view(&self) -> StateV {
        StateV {
            mem: self.ram@,
            regs: self.registers@,
            stack: self.stack@,
            grid: grid_view(self.display_buffer),
            delay_timer: self.delay_timer,
            sound_timer: self.sound_timer,
            pc: self.pc as int,
            i: self.i,
            should_draw: self.should_draw,
            waiting_for_key: self.waiting_for_key,
            key_register_index: self.key_register_index as int,
            play_audio: self.play_audio,
        }
    }
}

impl State {
    /// The structural invariant every reachable state keeps: the call
    /// stack within capacity and the key-wait target a register index.
    pub open spec fn wf(&self) -> bool {
        &&& self.stack.wf()
        &&& self.key_register_index < NUM_REGISTERS
    }

    /// A fresh state for a program: font loaded, program copied in at
    /// offset 512, everything else zeroed, program counter at 512.
    pub fn new(program: &[u8]) -> (s: State)
        requires
            program@.len() <= MEMORY_SIZE - PROGRAM_START,
        ensures
            s.wf(),
            is_initial_state(s@, program@),
    {
        let s = State {
            ram: Ram::new(program),
            registers: [0; 16],
            stack: Stack::new(),
            display_buffer: [[0; 64]; 32],
            delay_timer: 0,
            sound_timer: 0,
            pc: PROGRAM_START,
            i: 0,
            should_draw: false,
            waiting_for_key: false,
            key_register_index: 0,
            play_audio: false,
        };
        proof {
            assert(s@.grid =~~= blank_grid());
        }
        s
    }

    /// The big-endian 16-bit instruction word at the program counter.
    pub fn instruction(&self) -> (w: u16)
        requires
            self@.pc + 1 < MEMORY_SIZE,
        ensures
            w == self@.mem[self@.pc] * 256 + self@.mem[self@.pc + 1],
    {
        proof {
            self.ram.lemma_len();
        }
        self.ram.get_u16(self.pc)
    }

    /// Advance the program counter past one 16-bit instruction word.
    pub fn next_instruction(&mut self)
        requires
            old(self)@.pc + 2 <= usize::MAX,
        ensures
            final(self)@ == (StateV { pc: old(self)@.pc + 2, ..old(self)@ }),
            old(self).wf() ==> final(self).wf(),
    {
        self.pc += 2;
    }

    /// Store `reg_value` in general register `reg_index`.
    pub fn set_register(&mut self, reg_index: usize, reg_value: u8)
        requires
            reg_index < NUM_REGISTERS,
        ensures
            final(self)@ == (StateV {
                regs: old(self)@.regs.update(reg_index as int, reg_value),
                ..old(self)@
            }),
            old(self).wf() ==> final(self).wf(),
    {
        self.registers[reg_index] = reg_value;
    }

    /// Store a 16-bit value in the address register. The address must lie
    /// inside memory, a guard against malformed programs.
    pub fn set_address_register(&mut self, address: u16)
        requires
            address < MEMORY_SIZE,
        ensures
            final(self)@ == (StateV { i: address, ..old(self)@ }),
            old(self).wf() ==> final(self).wf(),
    {
        self.i = address;
    }
}

} // verus!
