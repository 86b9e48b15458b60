use vstd::prelude::*;

use super::consts::{FONTSET_START_ADDR, MEM_SIZE};
use super::errors::FdeError;
use super::model::{
    decode, executable, execute, loaded_registers, nibbles, stored_registers, Machine,
};
use super::VirtualMachine;

verus! {

proof fn lemma_nibbles(hi: u8, lo: u8)
    ensures
        hi >> 4 == hi / 16,
        hi & 0xF == hi % 16,
        (lo >> 4) & 0xF == lo / 16,
        lo & 0xF == lo % 16,
{
    assert(hi >> 4 == hi / 16 && hi & 0xF == hi % 16) by (bit_vector);
    assert((lo >> 4) & 0xF == lo / 16 && lo & 0xF == lo % 16) by (bit_vector);
}

/// The operand fields of an opcode: register `x`, register `y`, nibble `n`,
/// byte `kk` and address `nnn`.
fn split_opcode(hi: u8, lo: u8) -> (fields: (usize, usize, u8, u8, usize))
    ensures
        fields.0 == hi % 16,
        fields.1 == lo / 16,
        fields.2 == lo % 16,
        fields.3 == lo,
        fields.4 == (hi % 16) * 256 + lo,
{
    proof {
        lemma_nibbles(hi, lo);
    }
    let x = (hi & 0xF) as usize;
    let y = ((lo >> 4) & 0xF) as usize;
    let n = lo & 0xF;
    let nnn = (x << 8) | lo as usize;
    assert(x < 16 ==> (x << 8) | (lo as usize) == x * 256 + lo) by (bit_vector);
    (x, y, n, lo, nnn)
}

impl VirtualMachine {
    /// Stores V0 to VX in memory from I on.
    fn store_registers(&mut self, x: usize)
        requires
            x < 16,
            old(self).i_register + x < MEM_SIZE,
        ensures
            final(self)@ == (Machine { memory: stored_registers(old(self)@, x as u8), ..old(self)@ }),
    {
        let ghost m = self@;
        let i = self.i_register;
        let mut k: usize = 0;
        while k <= x
            invariant
                x < 16,
                i == m.i_register,
                i + x < MEM_SIZE,
                k <= x + 1,
                self.variable_registers@ == m.registers,
                m.registers.len() == 16,
                m.memory.len() == MEM_SIZE,
                forall|j: int|
                    0 <= j < MEM_SIZE ==> #[trigger] self.memory@[j] == (if i <= j < i + k {
                        m.registers[j - i]
                    } else {
                        m.memory[j]
                    }),
                self.video_memory == old(self).video_memory,
                self.is_running == m.is_running,
                self.is_waiting_for_key == m.is_waiting_for_key,
                self.current_key_press == m.current_key_press,
                self.last_cycle_result == m.last_cycle_result,
                self.program_counter == m.program_counter,
                self.i_register == m.i_register,
                self.stack@ == m.stack,
                self.keypad@ == m.keypad,
                self.delay_timer == m.delay_timer,
                self.sound_timer == m.sound_timer,
            decreases x + 1 - k,
        {
            self.memory[i + k] = self.variable_registers[k];
            k += 1;
        }
        assert(self.memory@ =~= stored_registers(m, x as u8));
    }

    /// Reads V0 to VX from memory from I on.
    fn load_registers(&mut self, x: usize)
        requires
            x < 16,
            old(self).i_register + x < MEM_SIZE,
        ensures
            final(self)@ == (Machine { registers: loaded_registers(old(self)@, x as u8), ..old(self)@ }),
    {
        let ghost m = self@;
        let i = self.i_register;
        let mut k: usize = 0;
        while k <= x
            invariant
                x < 16,
                i == m.i_register,
                i + x < MEM_SIZE,
                k <= x + 1,
                self.memory@ == m.memory,
                m.registers.len() == 16,
                m.memory.len() == MEM_SIZE,
                forall|j: int|
                    0 <= j < 16 ==> #[trigger] self.variable_registers@[j] == (if j < k {
                        m.memory[i + j]
                    } else {
                        m.registers[j]
                    }),
                self.video_memory == old(self).video_memory,
                self.is_running == m.is_running,
                self.is_waiting_for_key == m.is_waiting_for_key,
                self.current_key_press == m.current_key_press,
                self.last_cycle_result == m.last_cycle_result,
                self.program_counter == m.program_counter,
                self.i_register == m.i_register,
                self.stack@ == m.stack,
                self.keypad@ == m.keypad,
                self.delay_timer == m.delay_timer,
                self.sound_timer == m.sound_timer,
            decreases x + 1 - k,
        {
            self.variable_registers[k] = self.memory[i + k];
            k += 1;
        }
        assert(self.variable_registers@ =~= loaded_registers(m, x as u8));
    }

    /// Executes the instruction that `opcode_bytes` encode, with `random_byte`
    /// as the byte that `Cxkk` draws, and reports whether it was an instruction.
    /// The program counter is taken to point past the opcode already.
    pub fn execute_instruction(&mut self, opcode_bytes: [u8; 2], random_byte: u8) -> (result: Result<(), FdeError>)
        requires
            executable(old(self)@, decode(opcode_bytes[0], opcode_bytes[1])),
        ensures
            (final(self)@, result) == execute(
                old(self)@,
                decode(opcode_bytes[0], opcode_bytes[1]),
                random_byte,
            ),
    {
        let hi = opcode_bytes[0];
        let lo = opcode_bytes[1];
        let a = hi >> 4;
        proof {
            lemma_nibbles(hi, lo);
        }
        if a == 0x0 || a == 0x1 || a == 0x2 || a == 0xB {
            self.execute_flow(hi, lo)
        } else if a == 0x3 || a == 0x4 || a == 0x5 || a == 0x9 || a == 0xE {
            self.execute_skip(hi, lo)
        } else if a == 0x6 || a == 0x7 || (a == 0x8 && lo & 0xF < 0x4) {
            self.execute_arithmetic(hi, lo)
        } else if a == 0x8 && lo & 0xF < 0x6 {
            self.execute_arithmetic_with_flag(hi, lo)
        } else if a == 0x8 {
            self.execute_shift(hi, lo)
        } else if a == 0xA || a == 0xC || a == 0xD {
            self.execute_index_random_draw(hi, lo, random_byte)
        } else {
            self.execute_misc(hi, lo)
        }
    }

    /// Clear screen, return, jump, call and jump with offset: opcodes `0nnn`, `1nnn`, `2nnn`, `Bnnn`.
    fn execute_flow(&mut self, hi: u8, lo: u8) -> (result: Result<(), FdeError>)
        requires
            hi / 16 == 0x0 || hi / 16 == 0x1 || hi / 16 == 0x2 || hi / 16 == 0xB,
            executable(old(self)@, decode(hi, lo)),
        ensures
            forall|r: u8| (final(self)@, result) == #[trigger] execute(old(self)@, decode(hi, lo), r),
    {
        let (x, y, n, _kk, nnn) = split_opcode(hi, lo);
        let nib: [u8; 4] = [hi >> 4, x as u8, y as u8, n];
        proof {
            lemma_nibbles(hi, lo);
            assert(nib@ =~= nibbles(hi, lo)@);
        }
        match (nib[0], nib[1], nib[2], nib[3]) {
            // Clear screen
            (0x0, 0x0, 0xE, 0x0) => {
                self.video_memory = super::blank_display();
                Ok(())
            },
            // Return from subroutine
            (0x0, 0x0, 0xE, 0xE) => {
                match self.stack.pop() {
                    Some(addr) => {
                        self.program_counter = addr;
                        Ok(())
                    },
                    None => Err(FdeError::SubroutineReturn),
                }
            },
            // Jump to address
            (0x1, _, _, _) => {
                self.program_counter = nnn;
                Ok(())
            },
            // Call subroutine
            (0x2, _, _, _) => {
                self.stack.push(self.program_counter);
                self.program_counter = nnn;
                Ok(())
            },
            // Jump to nnn + V0
            (0xB, _, _, _) => {
                self.program_counter = self.variable_registers[0] as usize + nnn;
                Ok(())
            },
            _ => Err(FdeError::UnknownInstruction { _nibbles: nib }),
        }
    }

    /// Conditional skips: opcodes `3xkk`, `4xkk`, `5xy0`, `9xy0`, `Ex9E`, `ExA1`.
    fn execute_skip(&mut self, hi: u8, lo: u8) -> (result: Result<(), FdeError>)
        requires
            hi / 16 == 0x3 || hi / 16 == 0x4 || hi / 16 == 0x5 || hi / 16 == 0x9 || hi / 16 == 0xE,
            executable(old(self)@, decode(hi, lo)),
        ensures
            forall|r: u8| (final(self)@, result) == #[trigger] execute(old(self)@, decode(hi, lo), r),
    {
        let (x, y, n, kk, _nnn) = split_opcode(hi, lo);
        let nib: [u8; 4] = [hi >> 4, x as u8, y as u8, n];
        proof {
            lemma_nibbles(hi, lo);
            assert(nib@ =~= nibbles(hi, lo)@);
        }
        match (nib[0], nib[1], nib[2], nib[3]) {
            // Skip if VX == kk
            (0x3, _, _, _) => {
                if self.variable_registers[x] == kk {
                    self.program_counter += 2;
                }
                Ok(())
            },
            // Skip if VX != kk
            (0x4, _, _, _) => {
                if self.variable_registers[x] != kk {
                    self.program_counter += 2;
                }
                Ok(())
            },
            // Skip if VX == VY
            (0x5, _, _, 0x0) => {
                if self.variable_registers[x] == self.variable_registers[y] {
                    self.program_counter += 2;
                }
                Ok(())
            },
            // Skip if VX != VY
            (0x9, _, _, 0x0) => {
                if self.variable_registers[x] != self.variable_registers[y] {
                    self.program_counter += 2;
                }
                Ok(())
            },
            // Skip if key VX is down
            (0xE, _, 0x9, 0xE) => {
                let key = self.variable_registers[x] as usize;
                if self.keypad[key] {
                    self.program_counter += 2;
                }
                Ok(())
            },
            // Skip if key VX is up
            (0xE, _, 0xA, 0x1) => {
                let key = self.variable_registers[x] as usize;
                if !self.keypad[key] {
                    self.program_counter += 2;
                }
                Ok(())
            },
            _ => Err(FdeError::UnknownInstruction { _nibbles: nib }),
        }
    }

    /// Register loads and arithmetic that leaves VF alone: opcodes `6xkk`,
    /// `7xkk`, `8xy0` to `8xy3`.
    fn execute_arithmetic(&mut self, hi: u8, lo: u8) -> (result: Result<(), FdeError>)
        requires
            hi / 16 == 0x6 || hi / 16 == 0x7 || (hi / 16 == 0x8 && lo % 16 < 0x4),
            executable(old(self)@, decode(hi, lo)),
        ensures
            forall|r: u8| (final(self)@, result) == #[trigger] execute(old(self)@, decode(hi, lo), r),
    {
        let (x, y, n, kk, _nnn) = split_opcode(hi, lo);
        let nib: [u8; 4] = [hi >> 4, x as u8, y as u8, n];
        proof {
            lemma_nibbles(hi, lo);
            assert(nib@ =~= nibbles(hi, lo)@);
        }
        match (nib[0], nib[1], nib[2], nib[3]) {
            // Set VX = kk
            (0x6, _, _, _) => {
                self.variable_registers[x] = kk;
                Ok(())
            },
            // Add kk to VX, wrapping, VF untouched
            (0x7, _, _, _) => {
                self.variable_registers[x] = self.variable_registers[x].wrapping_add(kk);
                Ok(())
            },
            // Set VX = VY
            (0x8, _, _, 0x0) => {
                self.variable_registers[x] = self.variable_registers[y];
                Ok(())
            },
            // Set VX = VX | VY
            (0x8, _, _, 0x1) => {
                self.variable_registers[x] = self.variable_registers[x] | self.variable_registers[y];
                Ok(())
            },
            // Set VX = VX & VY
            (0x8, _, _, 0x2) => {
                self.variable_registers[x] = self.variable_registers[x] & self.variable_registers[y];
                Ok(())
            },
            // Set VX = VX ^ VY
            (0x8, _, _, 0x3) => {
                self.variable_registers[x] = self.variable_registers[x] ^ self.variable_registers[y];
                Ok(())
            },
            _ => Err(FdeError::UnknownInstruction { _nibbles: nib }),
        }
    }

    /// Addition and subtraction that set VF: opcodes `8xy4`, `8xy5`.
    #[verifier::rlimit(30)]
    fn execute_arithmetic_with_flag(&mut self, hi: u8, lo: u8) -> (result: Result<(), FdeError>)
        requires
            hi / 16 == 0x8 && 0x4 <= lo % 16 < 0x6,
            executable(old(self)@, decode(hi, lo)),
        ensures
            forall|r: u8| (final(self)@, result) == #[trigger] execute(old(self)@, decode(hi, lo), r),
    {
        let (x, y, n, _kk, _nnn) = split_opcode(hi, lo);
        let nib: [u8; 4] = [hi >> 4, x as u8, y as u8, n];
        proof {
            lemma_nibbles(hi, lo);
            assert(nib@ =~= nibbles(hi, lo)@);
        }
        match (nib[0], nib[1], nib[2], nib[3]) {
            // Set VX = VX + VY, VF = carry
            (0x8, _, _, 0x4) => {
                let vx = self.variable_registers[x];
                let vy = self.variable_registers[y];
                let carry = vx as u16 + vy as u16 > 0xFF;
                self.variable_registers[x] = vx.wrapping_add(vy);
                self.variable_registers[0xF] = if carry { 1 } else { 0 };
                Ok(())
            },
            // Set VX = VX - VY, VF = no borrow
            (0x8, _, _, 0x5) => {
                let vx = self.variable_registers[x];
                let vy = self.variable_registers[y];
                self.variable_registers[x] = vx.wrapping_sub(vy);
                self.variable_registers[0xF] = if vx >= vy { 1 } else { 0 };
                Ok(())
            },
            _ => Err(FdeError::UnknownInstruction { _nibbles: nib }),
        }
    }

    /// Shifts and reversed subtraction, which set VF: opcodes `8xy6`, `8xy7`, `8xyE`.
    #[verifier::rlimit(30)]
    fn execute_shift(&mut self, hi: u8, lo: u8) -> (result: Result<(), FdeError>)
        requires
            hi / 16 == 0x8 && lo % 16 >= 0x6,
            executable(old(self)@, decode(hi, lo)),
        ensures
            forall|r: u8| (final(self)@, result) == #[trigger] execute(old(self)@, decode(hi, lo), r),
    {
        let (x, y, n, _kk, _nnn) = split_opcode(hi, lo);
        let nib: [u8; 4] = [hi >> 4, x as u8, y as u8, n];
        proof {
            lemma_nibbles(hi, lo);
            assert(nib@ =~= nibbles(hi, lo)@);
        }
        match (nib[0], nib[1], nib[2], nib[3]) {
            // Set VF = lowest bit of VX, then VX = VX >> 1
            (0x8, _, _, 0x6) => {
                let vx = self.variable_registers[x];
                assert(vx & 0x1 == vx % 2) by (bit_vector);
                self.variable_registers[0xF] = vx & 0x1;
                let shifted = self.variable_registers[x];
                assert(shifted >> 1 == shifted / 2) by (bit_vector);
                self.variable_registers[x] = shifted >> 1;
                Ok(())
            },
            // Set VX = VY - VX, VF = no borrow
            (0x8, _, _, 0x7) => {
                let vx = self.variable_registers[x];
                let vy = self.variable_registers[y];
                self.variable_registers[x] = vy.wrapping_sub(vx);
                self.variable_registers[0xF] = if vy >= vx { 1 } else { 0 };
                Ok(())
            },
            // Set VF = highest bit of VX, then VX = VX << 1
            (0x8, _, _, 0xE) => {
                let vx = self.variable_registers[x];
                assert((vx & 0x80) >> 7 == vx / 128) by (bit_vector);
                self.variable_registers[0xF] = (vx & 0x80) >> 7;
                let shifted = self.variable_registers[x];
                assert(shifted << 1 == ((shifted * 2) % 256) as u8) by (bit_vector);
                self.variable_registers[x] = shifted << 1;
                Ok(())
            },
            _ => Err(FdeError::UnknownInstruction { _nibbles: nib }),
        }
    }

    /// Index register, random byte and sprite drawing: opcodes `Annn`, `Cxkk`, `Dxyn`.
    fn execute_index_random_draw(&mut self, hi: u8, lo: u8, random_byte: u8) -> (result: Result<(), FdeError>)
        requires
            hi / 16 == 0xA || hi / 16 == 0xC || hi / 16 == 0xD,
            executable(old(self)@, decode(hi, lo)),
        ensures
            (final(self)@, result) == execute(old(self)@, decode(hi, lo), random_byte),
    {
        let (x, y, n, kk, nnn) = split_opcode(hi, lo);
        let nib: [u8; 4] = [hi >> 4, x as u8, y as u8, n];
        proof {
            lemma_nibbles(hi, lo);
            assert(nib@ =~= nibbles(hi, lo)@);
        }
        match (nib[0], nib[1], nib[2], nib[3]) {
            // Set I = nnn
            (0xA, _, _, _) => {
                self.i_register = nnn;
                Ok(())
            },
            // Set VX = random byte & kk
            (0xC, _, _, _) => {
                self.variable_registers[x] = random_byte & kk;
                Ok(())
            },
            // Draw a sprite of n rows from I at (VX, VY)
            (0xD, _, _, _) => {
                self.draw_sprite(x, y, n);
                Ok(())
            },
            _ => Err(FdeError::UnknownInstruction { _nibbles: nib }),
        }
    }

    /// Timers, keys, font, decimal digits and register transfers: opcodes `Fxkk`.
    fn execute_misc(&mut self, hi: u8, lo: u8) -> (result: Result<(), FdeError>)
        requires
            hi / 16 == 0xF,
            executable(old(self)@, decode(hi, lo)),
        ensures
            forall|r: u8| (final(self)@, result) == #[trigger] execute(old(self)@, decode(hi, lo), r),
    {
        let (x, y, n, _kk, _nnn) = split_opcode(hi, lo);
        let nib: [u8; 4] = [hi >> 4, x as u8, y as u8, n];
        proof {
            lemma_nibbles(hi, lo);
            assert(nib@ =~= nibbles(hi, lo)@);
        }
        match (nib[0], nib[1], nib[2], nib[3]) {
            // Set VX = delay timer
            (0xF, _, 0x0, 0x7) => {
                self.variable_registers[x] = self.delay_timer;
                Ok(())
            },
            // Wait for a key press, store it in VX
            (0xF, _, 0x0, 0xA) => {
                self.is_waiting_for_key = true;
                match self.current_key_press {
                    Some(key) => {
                        self.variable_registers[x] = key;
                        self.is_waiting_for_key = false;
                        self.current_key_press = None;
                    },
                    None => {
                        self.program_counter -= 2;
                    },
                }
                Ok(())
            },
            // Set delay timer = VX
            (0xF, _, 0x1, 0x5) => {
                self.delay_timer = self.variable_registers[x];
                Ok(())
            },
            // Set sound timer = VX
            (0xF, _, 0x1, 0x8) => {
                self.sound_timer = self.variable_registers[x];
                Ok(())
            },
            // Set I = I + VX
            (0xF, _, 0x1, 0xE) => {
                self.i_register += self.variable_registers[x] as usize;
                Ok(())
            },
            // Set I = address of the font glyph for VX
            (0xF, _, 0x2, 0x9) => {
                let digit = self.variable_registers[x];
                self.i_register = FONTSET_START_ADDR + (5 * digit) as usize;
                Ok(())
            },
            // Store the decimal digits of VX at I, I + 1, I + 2
            (0xF, _, 0x3, 0x3) => {
                let value = self.variable_registers[x];
                let i = self.i_register;
                self.memory[i + 2] = value % 10;
                self.memory[i + 1] = (value / 10) % 10;
                self.memory[i] = (value / 100) % 10;
                Ok(())
            },
            // Store V0 to VX in memory from I on
            (0xF, _, 0x5, 0x5) => {
                self.store_registers(x);
                Ok(())
            },
            // Read V0 to VX from memory from I on
            (0xF, _, 0x6, 0x5) => {
                self.load_registers(x);
                Ok(())
            },
            _ => Err(FdeError::UnknownInstruction { _nibbles: nib }),
        }
    }
}

} // verus!
