pub mod consts;
pub mod errors;
pub mod model;
mod cycle;
mod display;
pub mod frame;
mod instructions;
pub mod laws;
pub mod opcode_laws;

use vstd::prelude::*;

use consts::{
    DISPLAY_HEIGHT, DISPLAY_WIDTH, FONTSET, FONTSET_SIZE, FONTSET_START_ADDR, MEM_SIZE,
    PROG_MEM_START_ADDR, STACK_SIZE,
};
use errors::FdeError;
use model::{blank_video, initial_machine, initial_memory, loaded_memory, Machine};

verus! {

/// A CHIP-8 interpreter: memory, display, registers, stack, keypad and timers.
pub struct VirtualMachine {
    pub is_running: bool,
    pub is_waiting_for_key: bool,
    pub current_key_press: Option<u8>,
    pub last_cycle_result: Result<(), FdeError>,
    pub memory: [u8; MEM_SIZE],
    pub video_memory: [[u8; DISPLAY_WIDTH]; DISPLAY_HEIGHT],
    pub program_counter: usize,
    pub stack: Vec<usize>,
    pub i_register: usize,
    pub variable_registers: [u8; 16],
    pub keypad: [bool; 16],
    pub delay_timer: u8,
    pub sound_timer: u8,
}

impl View for VirtualMachine {
    type V = Machine;

    open spec fn view(&self) -> Machine {
        Machine {
            is_running: self.is_running,
            is_waiting_for_key: self.is_waiting_for_key,
            current_key_press: self.current_key_press,
            last_cycle_result: self.last_cycle_result,
            memory: self.memory@,
            video: self.video_memory@.map_values(|row: [u8; DISPLAY_WIDTH]| row@),
            program_counter: self.program_counter,
            stack: self.stack@,
            i_register: self.i_register,
            registers: self.variable_registers@,
            keypad: self.keypad@,
            delay_timer: self.delay_timer,
            sound_timer: self.sound_timer,
        }
    }
}

/// A display with every pixel clear.
fn blank_display() -> (video: [[u8; DISPLAY_WIDTH]; DISPLAY_HEIGHT])
    ensures
        video@.map_values(|row: [u8; DISPLAY_WIDTH]| row@) == blank_video(),
{
    let video = [[0u8; DISPLAY_WIDTH]; DISPLAY_HEIGHT];
    assert(video@.map_values(|row: [u8; DISPLAY_WIDTH]| row@) =~~= blank_video());
    video
}

impl VirtualMachine {
    /// The view of any machine has the sizes of its arrays.
    pub proof fn lemma_view_well_formed(&self)
        ensures
            self@.well_formed(),
    {
        assert forall|r: int| 0 <= r < DISPLAY_HEIGHT implies #[trigger] self@.video[r].len()
            == DISPLAY_WIDTH by {
            assert(self@.video[r] == self.video_memory@[r]@);
        }
    }

    /// A machine that is not running, with the font loaded into memory at
    /// `FONTSET_START_ADDR`, memory otherwise clear, a blank display, cleared
    /// registers and timers, an empty stack and the program counter at
    /// `PROG_MEM_START_ADDR`.
    pub fn new() -> (vm: Self)
        ensures
            vm@ == initial_machine(),
    {
        let mut memory = [0u8; MEM_SIZE];
        let mut k: usize = 0;
        while k < FONTSET_SIZE
            invariant
                k <= FONTSET_SIZE,
                forall|j: int|
                    0 <= j < MEM_SIZE ==> #[trigger] memory@[j] == (if FONTSET_START_ADDR <= j
                        < FONTSET_START_ADDR + k {
                        FONTSET@[j - FONTSET_START_ADDR]
                    } else {
                        0u8
                    }),
            decreases FONTSET_SIZE - k,
        {
            memory[FONTSET_START_ADDR + k] = FONTSET[k];
            k += 1;
        }
        assert(memory@ =~= initial_memory());
        let vm = VirtualMachine {
            is_running: false,
            is_waiting_for_key: false,
            current_key_press: None,
            last_cycle_result: Ok(()),
            memory,
            video_memory: blank_display(),
            program_counter: PROG_MEM_START_ADDR,
            stack: Vec::with_capacity(STACK_SIZE),
            i_register: 0,
            variable_registers: [0u8; 16],
            keypad: [false; 16],
            delay_timer: 0,
            sound_timer: 0,
        };
        assert(vm.variable_registers@ =~= Seq::new(16, |j: int| 0u8));
        assert(vm.keypad@ =~= Seq::new(16, |j: int| false));
        vm
    }

    /// Puts the machine back in the state that `new` gives.
    pub fn reset(&mut self)
        ensures
            final(self)@ == initial_machine(),
    {
        *self = Self::new();
    }

    /// Stops the machine; nothing else changes.
    pub fn pause(&mut self)
        ensures
            final(self)@ == (Machine { is_running: false, ..old(self)@ }),
    {
        self.is_running = false;
    }

    /// Copies `program` into memory from `PROG_MEM_START_ADDR` on and starts
    /// the machine; nothing else changes.
    pub fn load_program(&mut self, program: &[u8])
        requires
            program@.len() <= MEM_SIZE - PROG_MEM_START_ADDR,
        ensures
            final(self)@ == (Machine {
                is_running: true,
                memory: loaded_memory(old(self)@.memory, program@),
                ..old(self)@
            }),
    {
        let mut k: usize = 0;
        while k < program.len()
            invariant
                k <= program@.len() <= MEM_SIZE - PROG_MEM_START_ADDR,
                self.is_running == old(self).is_running,
                forall|j: int|
                    0 <= j < MEM_SIZE ==> #[trigger] self.memory@[j] == (if PROG_MEM_START_ADDR <= j
                        < PROG_MEM_START_ADDR + k {
                        program@[j - PROG_MEM_START_ADDR]
                    } else {
                        old(self).memory@[j]
                    }),
                self.video_memory == old(self).video_memory,
                self.stack == old(self).stack,
                self.variable_registers == old(self).variable_registers,
                self.keypad == old(self).keypad,
                self.program_counter == old(self).program_counter,
                self.i_register == old(self).i_register,
                self.is_waiting_for_key == old(self).is_waiting_for_key,
                self.current_key_press == old(self).current_key_press,
                self.last_cycle_result == old(self).last_cycle_result,
                self.delay_timer == old(self).delay_timer,
                self.sound_timer == old(self).sound_timer,
            decreases program@.len() - k,
        {
            self.memory[PROG_MEM_START_ADDR + k] = program[k];
            k += 1;
        }
        assert(self.memory@ =~= loaded_memory(old(self).memory@, program@));
        self.is_running = true;
    }
}

} // verus!
