use vstd::prelude::*;

use super::consts::{MEM_SIZE, START_ADDR};
use super::virtual_machine::{with_font, with_rom, VirtualMachine};

verus! {

/// A CHIP-8 machine: memory, call stack, registers and timers.
pub struct Chip8 {
    pub memory: [u8; MEM_SIZE],
    pub stack: [u16; 16],
    /// Stack pointer.
    pub sp: u8,
    /// Index register.
    pub i: u16,
    /// Program counter.
    pub pc: u16,
    /// The registers V0 to VF.
    pub v: [u8; 16],
    pub delay_timer: u8,
    pub sound_timer: u8,
}

impl Chip8 {
    /// A machine with clear memory, stack, registers and timers, and the
    /// program counter at `START_ADDR`.
    pub fn new() -> (chip8: Chip8)
        ensures
            chip8.memory@ == Seq::new(MEM_SIZE as nat, |j: int| 0u8),
            chip8.stack@ == Seq::new(16, |j: int| 0u16),
            chip8.sp == 0,
            chip8.i == 0,
            chip8.pc == START_ADDR,
            chip8.v@ == Seq::new(16, |j: int| 0u8),
            chip8.delay_timer == 0,
            chip8.sound_timer == 0,
    {
        let chip8 = Chip8 {
            memory: [0; MEM_SIZE],
            stack: [0; 16],
            sp: 0,
            i: 0,
            pc: START_ADDR as u16,
            v: [0; 16],
            delay_timer: 0,
            sound_timer: 0,
        };
        assert(chip8.memory@ =~= Seq::new(MEM_SIZE as nat, |j: int| 0u8));
        assert(chip8.stack@ =~= Seq::new(16, |j: int| 0u16));
        assert(chip8.v@ =~= Seq::new(16, |j: int| 0u8));
        chip8
    }

    /// Loads the font, then `rom`, into memory; nothing else changes.
    pub fn start(&mut self, rom: &[u8])
        requires
            START_ADDR + rom@.len() <= MEM_SIZE,
        ensures
            final(self).memory@ == with_rom(with_font(old(self).memory@), rom@),
            final(self).stack == old(self).stack,
            final(self).sp == old(self).sp,
            final(self).i == old(self).i,
            final(self).pc == old(self).pc,
            final(self).v == old(self).v,
            final(self).delay_timer == old(self).delay_timer,
            final(self).sound_timer == old(self).sound_timer,
    {
        self.load_fonts();
        self.load_rom(rom);
    }
}

impl VirtualMachine for Chip8 {
    open spec fn memory_view(&self) -> Seq<u8> {
        self.memory@
    }

    open spec fn same_but_memory(&self, other: &Self) -> bool {
        &&& self.stack == other.stack
        &&& self.sp == other.sp
        &&& self.i == other.i
        &&& self.pc == other.pc
        &&& self.v == other.v
        &&& self.delay_timer == other.delay_timer
        &&& self.sound_timer == other.sound_timer
    }

    proof fn lemma_same_but_memory(a: &Self, b: &Self, c: &Self) {
    }

    fn get_memory(&mut self) -> (memory: &mut [u8]) {
        &mut self.memory
    }
}

} // verus!
