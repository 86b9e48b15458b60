use vstd::prelude::*;

use super::consts::MEM_SIZE;
use super::errors::FdeError;
use super::model::{
    current_instruction, cycle, cycle_executable, decode, executable, execute, fetched, is_random,
};
use super::VirtualMachine;

verus! {

/// A byte drawn from the thread-local generator of the `rand` crate
/// (`rand::random::<u8>()`). Nothing is claimed of its value: any byte may
/// come back, and two calls may differ.
#[verifier::external_body]
fn random_byte() -> (byte: u8) {
    rand::random::<u8>()
}

impl VirtualMachine {
    /// Whether the instruction that `hi`, `lo` encode can be executed on this
    /// machine with its program counter at `pc` (see `executable`).
    fn executable_at(&self, pc: usize, hi: u8, lo: u8) -> (ok: bool)
        ensures
            ok == executable(self@.with_pc(pc as int), decode(hi, lo)),
    {
        let a = hi >> 4;
        let x = (hi & 0xF) as usize;
        let n = lo & 0xF;
        proof {
            assert(a == hi / 16 && x == hi % 16 && n == lo % 16) by (bit_vector)
                requires
                    a == hi >> 4,
                    x == (hi & 0xF) as usize,
                    n == lo & 0xF,
            ;
        }
        if hi == 0x00 && (lo == 0xE0 || lo == 0xEE) {
            true
        } else if a == 0x3 || a == 0x4 || (a == 0x5 && n == 0x0) || (a == 0x9 && n == 0x0) {
            pc <= usize::MAX - 2
        } else if a == 0xE && (lo == 0x9E || lo == 0xA1) {
            self.variable_registers[x] < 16 && pc <= usize::MAX - 2
        } else if a == 0xD {
            self.i_register <= MEM_SIZE - n as usize
        } else if a == 0xF && lo == 0x0A {
            self.current_key_press.is_some() || pc >= 2
        } else if a == 0xF && lo == 0x1E {
            self.i_register <= usize::MAX - self.variable_registers[x] as usize
        } else if a == 0xF && lo == 0x29 {
            self.variable_registers[x] <= 51
        } else if a == 0xF && lo == 0x33 {
            self.i_register < MEM_SIZE - 2
        } else if a == 0xF && (lo == 0x55 || lo == 0x65) {
            self.i_register < MEM_SIZE - x
        } else {
            true
        }
    }

    /// Whether `execute_instruction` may be called with `opcode_bytes`, that
    /// is, whether the instruction stays within what the interpreter can do.
    pub fn can_execute(&self, opcode_bytes: [u8; 2]) -> (ok: bool)
        ensures
            ok == executable(self@, decode(opcode_bytes[0], opcode_bytes[1])),
    {
        assert(self@.with_pc(self.program_counter as int) =~= self@);
        self.executable_at(self.program_counter, opcode_bytes[0], opcode_bytes[1])
    }

    /// Whether `fde_cycle` may be called, that is, whether the next cycle
    /// stays within what the interpreter can do.
    pub fn can_cycle(&self) -> (ok: bool)
        ensures
            ok == cycle_executable(self@),
    {
        if self.program_counter == usize::MAX {
            false
        } else if self.program_counter + 1 >= MEM_SIZE {
            true
        } else {
            let pc = self.program_counter;
            self.executable_at(pc + 2, self.memory[pc], self.memory[pc + 1])
        }
    }

    /// Executes the instruction that `opcode_bytes` encode, drawing a random
    /// byte when it is `Cxkk`.
    fn decode_execute_instruction(&mut self, opcode_bytes: [u8; 2]) -> (result: Result<(), FdeError>)
        requires
            executable(old(self)@, decode(opcode_bytes[0], opcode_bytes[1])),
        ensures
            exists|random: u8|
                (final(self)@, result) == #[trigger] execute(
                    old(self)@,
                    decode(opcode_bytes[0], opcode_bytes[1]),
                    random,
                ),
            !is_random(opcode_bytes[0], opcode_bytes[1]) ==> (final(self)@, result) == execute(
                old(self)@,
                decode(opcode_bytes[0], opcode_bytes[1]),
                0,
            ),
    {
        let hi = opcode_bytes[0];
        let byte = if hi >> 4 == 0xC {
            random_byte()
        } else {
            0
        };
        proof {
            assert(hi >> 4 == hi / 16) by (bit_vector);
        }
        self.execute_instruction(opcode_bytes, byte)
    }

    /// One fetch-decode-execute cycle: when the program counter leaves no room
    /// for a two-byte opcode, records `StackOverflow`; else fetches the opcode
    /// at the program counter, moves the program counter past it, executes it
    /// and records the outcome in `last_cycle_result`.
    pub fn fde_cycle(&mut self)
        requires
            cycle_executable(old(self)@),
        ensures
            exists|random: u8| final(self)@ == #[trigger] cycle(old(self)@, random),
            !is_random(old(self)@.memory[old(self)@.program_counter as int], old(self)@.memory[old(
                self,
            )@.program_counter + 1]) ==> final(self)@ == cycle(old(self)@, 0),
    {
        let ghost m = self@;
        if self.program_counter + 1 >= MEM_SIZE {
            self.last_cycle_result = Err(FdeError::StackOverflow);
            assert(self@ == cycle(m, 0));
            return;
        }
        let pc = self.program_counter;
        let opcode_bytes = [self.memory[pc], self.memory[pc + 1]];
        self.program_counter = pc + 2;
        assert(self@ == fetched(m));
        assert(decode(opcode_bytes[0], opcode_bytes[1]) == current_instruction(m));
        let result = self.decode_execute_instruction(opcode_bytes);
        let ghost executed = self@;
        self.last_cycle_result = result;
        proof {
            let random = choose|random: u8|
                (executed, result) == #[trigger] execute(
                    fetched(m),
                    decode(opcode_bytes[0], opcode_bytes[1]),
                    random,
                );
            assert(self@ == cycle(m, random));
        }
    }
}

} // verus!
