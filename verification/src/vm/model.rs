use vstd::prelude::*;

use super::consts::{
    DISPLAY_HEIGHT, DISPLAY_WIDTH, FONTSET, FONTSET_SIZE, FONTSET_START_ADDR, MEM_SIZE,
    PROG_MEM_START_ADDR,
};
use super::errors::FdeError;

verus! {

/// The abstract state of the interpreter: what a `VirtualMachine` holds, with
/// each array seen as a sequence.
#[verifier::ext_equal]
pub struct Machine {
    pub is_running: bool,
    pub is_waiting_for_key: bool,
    pub current_key_press: Option<u8>,
    pub last_cycle_result: Result<(), FdeError>,
    /// `MEM_SIZE` bytes.
    pub memory: Seq<u8>,
    /// `DISPLAY_HEIGHT` rows of `DISPLAY_WIDTH` pixels.
    pub video: Seq<Seq<u8>>,
    pub program_counter: usize,
    pub stack: Seq<usize>,
    pub i_register: usize,
    /// The sixteen registers V0 to VF.
    pub registers: Seq<u8>,
    /// Whether each of the sixteen keys is held down.
    pub keypad: Seq<bool>,
    pub delay_timer: u8,
    pub sound_timer: u8,
}

/// An instruction, as two opcode bytes name it.
/// `x` and `y` name registers, `kk` is an immediate byte, `nnn` an address.
pub enum Instruction {
    ClearScreen,
    Return,
    Jump { nnn: usize },
    Call { nnn: usize },
    SkipIfEqualByte { x: u8, kk: u8 },
    SkipIfNotEqualByte { x: u8, kk: u8 },
    SkipIfEqual { x: u8, y: u8 },
    SetByte { x: u8, kk: u8 },
    AddByte { x: u8, kk: u8 },
    Copy { x: u8, y: u8 },
    Or { x: u8, y: u8 },
    And { x: u8, y: u8 },
    Xor { x: u8, y: u8 },
    AddRegisters { x: u8, y: u8 },
    Subtract { x: u8, y: u8 },
    ShiftRight { x: u8 },
    SubtractReversed { x: u8, y: u8 },
    ShiftLeft { x: u8 },
    SkipIfNotEqual { x: u8, y: u8 },
    SetIndex { nnn: usize },
    JumpOffset { nnn: usize },
    Random { x: u8, kk: u8 },
    Draw { x: u8, y: u8, n: u8 },
    SkipIfKey { x: u8 },
    SkipIfNotKey { x: u8 },
    LoadDelay { x: u8 },
    WaitKey { x: u8 },
    SetDelay { x: u8 },
    SetSound { x: u8 },
    AddIndex { x: u8 },
    FontCharacter { x: u8 },
    StoreBcd { x: u8 },
    StoreRegisters { x: u8 },
    LoadRegisters { x: u8 },
    Unknown { nibbles: [u8; 4] },
}

/// The four nibbles of an opcode, most significant first.
pub open spec fn nibbles(hi: u8, lo: u8) -> [u8; 4] {
    [hi / 16, hi % 16, lo / 16, lo % 16]
}

/// The instruction that the opcode bytes `hi`, `lo` encode.
pub open spec fn decode(hi: u8, lo: u8) -> Instruction {
    let a = hi / 16;
    let x = hi % 16;
    let y = lo / 16;
    let n = lo % 16;
    let kk = lo;
    let nnn = (x * 256 + lo) as usize;
    if hi == 0x00 && lo == 0xE0 {
        Instruction::ClearScreen
    } else if hi == 0x00 && lo == 0xEE {
        Instruction::Return
    } else if a == 0x1 {
        Instruction::Jump { nnn }
    } else if a == 0x2 {
        Instruction::Call { nnn }
    } else if a == 0x3 {
        Instruction::SkipIfEqualByte { x, kk }
    } else if a == 0x4 {
        Instruction::SkipIfNotEqualByte { x, kk }
    } else if a == 0x5 && n == 0x0 {
        Instruction::SkipIfEqual { x, y }
    } else if a == 0x6 {
        Instruction::SetByte { x, kk }
    } else if a == 0x7 {
        Instruction::AddByte { x, kk }
    } else if a == 0x8 && n == 0x0 {
        Instruction::Copy { x, y }
    } else if a == 0x8 && n == 0x1 {
        Instruction::Or { x, y }
    } else if a == 0x8 && n == 0x2 {
        Instruction::And { x, y }
    } else if a == 0x8 && n == 0x3 {
        Instruction::Xor { x, y }
    } else if a == 0x8 && n == 0x4 {
        Instruction::AddRegisters { x, y }
    } else if a == 0x8 && n == 0x5 {
        Instruction::Subtract { x, y }
    } else if a == 0x8 && n == 0x6 {
        Instruction::ShiftRight { x }
    } else if a == 0x8 && n == 0x7 {
        Instruction::SubtractReversed { x, y }
    } else if a == 0x8 && n == 0xE {
        Instruction::ShiftLeft { x }
    } else if a == 0x9 && n == 0x0 {
        Instruction::SkipIfNotEqual { x, y }
    } else if a == 0xA {
        Instruction::SetIndex { nnn }
    } else if a == 0xB {
        Instruction::JumpOffset { nnn }
    } else if a == 0xC {
        Instruction::Random { x, kk }
    } else if a == 0xD {
        Instruction::Draw { x, y, n }
    } else if a == 0xE && lo == 0x9E {
        Instruction::SkipIfKey { x }
    } else if a == 0xE && lo == 0xA1 {
        Instruction::SkipIfNotKey { x }
    } else if a == 0xF && lo == 0x07 {
        Instruction::LoadDelay { x }
    } else if a == 0xF && lo == 0x0A {
        Instruction::WaitKey { x }
    } else if a == 0xF && lo == 0x15 {
        Instruction::SetDelay { x }
    } else if a == 0xF && lo == 0x18 {
        Instruction::SetSound { x }
    } else if a == 0xF && lo == 0x1E {
        Instruction::AddIndex { x }
    } else if a == 0xF && lo == 0x29 {
        Instruction::FontCharacter { x }
    } else if a == 0xF && lo == 0x33 {
        Instruction::StoreBcd { x }
    } else if a == 0xF && lo == 0x55 {
        Instruction::StoreRegisters { x }
    } else if a == 0xF && lo == 0x65 {
        Instruction::LoadRegisters { x }
    } else {
        Instruction::Unknown { nibbles: nibbles(hi, lo) }
    }
}

/// Whether opcode bytes `hi`, `lo` encode the random-byte instruction, the one
/// instruction whose effect depends on a random byte.
pub open spec fn is_random(hi: u8, lo: u8) -> bool {
    decode(hi, lo) is Random
}

impl Machine {
    /// Whether the sequences have the sizes of the arrays they stand for.
    pub open spec fn well_formed(self) -> bool {
        &&& self.memory.len() == MEM_SIZE
        &&& self.video.len() == DISPLAY_HEIGHT
        &&& forall|r: int| 0 <= r < DISPLAY_HEIGHT ==> #[trigger] self.video[r].len() == DISPLAY_WIDTH
        &&& self.registers.len() == 16
        &&& self.keypad.len() == 16
    }

    pub open spec fn reg(self, x: u8) -> u8 {
        self.registers[x as int]
    }

    pub open spec fn with_register(self, x: u8, value: u8) -> Machine {
        Machine { registers: self.registers.update(x as int, value), ..self }
    }

    pub open spec fn with_pc(self, pc: int) -> Machine {
        Machine { program_counter: pc as usize, ..self }
    }

    /// Skips the next instruction when `cond` holds.
    pub open spec fn skip_when(self, cond: bool) -> Machine {
        if cond {
            self.with_pc(self.program_counter + 2)
        } else {
            self
        }
    }
}

/// A blank display.
pub open spec fn blank_video() -> Seq<Seq<u8>> {
    Seq::new(DISPLAY_HEIGHT as nat, |r: int| Seq::new(DISPLAY_WIDTH as nat, |c: int| 0u8))
}

/// The memory holding only the built-in font, at `FONTSET_START_ADDR`.
pub open spec fn initial_memory() -> Seq<u8> {
    Seq::new(
        MEM_SIZE as nat,
        |k: int|
            if FONTSET_START_ADDR <= k < FONTSET_START_ADDR + FONTSET_SIZE {
                FONTSET@[k - FONTSET_START_ADDR]
            } else {
                0u8
            },
    )
}

/// `memory` with `program` copied into it from `PROG_MEM_START_ADDR` on.
pub open spec fn loaded_memory(memory: Seq<u8>, program: Seq<u8>) -> Seq<u8> {
    Seq::new(
        memory.len(),
        |k: int|
            if PROG_MEM_START_ADDR <= k < PROG_MEM_START_ADDR + program.len() {
                program[k - PROG_MEM_START_ADDR]
            } else {
                memory[k]
            },
    )
}

/// The state of a machine that was just created: font loaded, nothing else.
pub open spec fn initial_machine() -> Machine {
    Machine {
        is_running: false,
        is_waiting_for_key: false,
        current_key_press: None,
        last_cycle_result: Ok(()),
        memory: initial_memory(),
        video: blank_video(),
        program_counter: PROG_MEM_START_ADDR,
        stack: Seq::empty(),
        i_register: 0,
        registers: Seq::new(16, |k: int| 0u8),
        keypad: Seq::new(16, |k: int| false),
        delay_timer: 0,
        sound_timer: 0,
    }
}

/// The pixel that a sprite of `n` rows, read from `memory` at `i` and placed
/// with its top left corner at column `bx`, row `by`, puts at row `r`, column `c`
/// (1 for set, 0 for clear). A sprite is not wrapped round the display's edges.
pub open spec fn sprite_pixel(memory: Seq<u8>, i: usize, bx: int, by: int, n: u8, r: int, c: int) -> u8 {
    if by <= r < by + n && bx <= c < bx + 8 {
        (memory[i + (r - by)] >> ((7 - (c - bx)) as u8)) & 1u8
    } else {
        0u8
    }
}

/// The column at which instruction `Dxyn` places a sprite.
pub open spec fn sprite_column(m: Machine, x: u8) -> int {
    (m.reg(x) as int) % (DISPLAY_WIDTH as int)
}

/// The row at which instruction `Dxyn` places a sprite.
pub open spec fn sprite_row(m: Machine, y: u8) -> int {
    (m.reg(y) as int) % (DISPLAY_HEIGHT as int)
}

/// The display after the sprite of `Dxyn` is drawn onto it: each sprite pixel
/// is XORed onto the display pixel under it.
pub open spec fn drawn_video(m: Machine, x: u8, y: u8, n: u8) -> Seq<Seq<u8>> {
    Seq::new(
        DISPLAY_HEIGHT as nat,
        |r: int|
            Seq::new(
                DISPLAY_WIDTH as nat,
                |c: int|
                    m.video[r][c] ^ sprite_pixel(
                        m.memory,
                        m.i_register,
                        sprite_column(m, x),
                        sprite_row(m, y),
                        n,
                        r,
                        c,
                    ),
            ),
    )
}

/// Whether drawing the sprite of `Dxyn` turns off a pixel that was on.
pub open spec fn draw_collides(m: Machine, x: u8, y: u8, n: u8) -> bool {
    exists|r: int, c: int|
        0 <= r < DISPLAY_HEIGHT && 0 <= c < DISPLAY_WIDTH && #[trigger] sprite_pixel(
            m.memory,
            m.i_register,
            sprite_column(m, x),
            sprite_row(m, y),
            n,
            r,
            c,
        ) == 1 && m.video[r][c] == 1
}

/// Memory after `Fx33`: the hundreds, tens and ones of VX at I, I + 1, I + 2.
pub open spec fn bcd_memory(m: Machine, x: u8) -> Seq<u8> {
    let v = m.reg(x);
    let i = m.i_register as int;
    m.memory.update(i, v / 100).update(i + 1, (v / 10) % 10).update(i + 2, v % 10)
}

/// Memory after `Fx55`: V0 to VX stored at I onwards.
pub open spec fn stored_registers(m: Machine, x: u8) -> Seq<u8> {
    let i = m.i_register as int;
    Seq::new(
        m.memory.len(),
        |k: int|
            if i <= k <= i + x {
                m.registers[k - i]
            } else {
                m.memory[k]
            },
    )
}

/// Registers after `Fx65`: V0 to VX read from I onwards.
pub open spec fn loaded_registers(m: Machine, x: u8) -> Seq<u8> {
    let i = m.i_register as int;
    Seq::new(
        m.registers.len(),
        |k: int|
            if 0 <= k <= x {
                m.memory[i + k]
            } else {
                m.registers[k]
            },
    )
}

/// Whether executing `ins` on `m` stays within what the interpreter can do:
/// every memory access is in bounds, every key index names a key, and no
/// arithmetic on the index register or the program counter overflows.
pub open spec fn executable(m: Machine, ins: Instruction) -> bool {
    match ins {
        Instruction::SkipIfEqualByte { .. } | Instruction::SkipIfNotEqualByte { .. }
        | Instruction::SkipIfEqual { .. } | Instruction::SkipIfNotEqual { .. } => {
            m.program_counter + 2 <= usize::MAX
        },
        Instruction::SkipIfKey { x } | Instruction::SkipIfNotKey { x } => {
            m.reg(x) < 16 && m.program_counter + 2 <= usize::MAX
        },
        Instruction::WaitKey { .. } => m.current_key_press is Some || m.program_counter >= 2,
        Instruction::AddIndex { x } => m.i_register + m.reg(x) <= usize::MAX,
        Instruction::FontCharacter { x } => 5 * m.reg(x) <= u8::MAX,
        Instruction::StoreBcd { .. } => m.i_register + 2 < MEM_SIZE,
        Instruction::StoreRegisters { x } | Instruction::LoadRegisters { x } => {
            m.i_register + x < MEM_SIZE
        },
        Instruction::Draw { n, .. } => m.i_register + n <= MEM_SIZE,
        _ => true,
    }
}

/// The machine after `ins` is executed, and what the execution reports.
/// `random` is the random byte that `Cxkk` draws; no other instruction reads it.
pub open spec fn execute(m: Machine, ins: Instruction, random: u8) -> (Machine, Result<(), FdeError>) {
    match ins {
        Instruction::ClearScreen => (Machine { video: blank_video(), ..m }, Ok(())),
        Instruction::Return => {
            if m.stack.len() == 0 {
                (m, Err(FdeError::SubroutineReturn))
            } else {
                (Machine { program_counter: m.stack.last(), stack: m.stack.drop_last(), ..m }, Ok(()))
            }
        },
        Instruction::Jump { nnn } => (m.with_pc(nnn as int), Ok(())),
        Instruction::Call { nnn } => (
            Machine { stack: m.stack.push(m.program_counter), program_counter: nnn, ..m },
            Ok(()),
        ),
        Instruction::SkipIfEqualByte { x, kk } => (m.skip_when(m.reg(x) == kk), Ok(())),
        Instruction::SkipIfNotEqualByte { x, kk } => (m.skip_when(m.reg(x) != kk), Ok(())),
        Instruction::SkipIfEqual { x, y } => (m.skip_when(m.reg(x) == m.reg(y)), Ok(())),
        Instruction::SetByte { x, kk } => (m.with_register(x, kk), Ok(())),
        Instruction::AddByte { x, kk } => (
            m.with_register(x, ((m.reg(x) + kk) % 256) as u8),
            Ok(()),
        ),
        Instruction::Copy { x, y } => (m.with_register(x, m.reg(y)), Ok(())),
        Instruction::Or { x, y } => (m.with_register(x, m.reg(x) | m.reg(y)), Ok(())),
        Instruction::And { x, y } => (m.with_register(x, m.reg(x) & m.reg(y)), Ok(())),
        Instruction::Xor { x, y } => (m.with_register(x, m.reg(x) ^ m.reg(y)), Ok(())),
        Instruction::AddRegisters { x, y } => {
            let sum = m.reg(x) + m.reg(y);
            (
                m.with_register(x, (sum % 256) as u8).with_register(
                    15,
                    if sum > u8::MAX { 1 } else { 0 },
                ),
                Ok(()),
            )
        },
        Instruction::Subtract { x, y } => {
            let (vx, vy) = (m.reg(x), m.reg(y));
            (
                m.with_register(x, ((vx - vy + 256) % 256) as u8).with_register(
                    15,
                    if vx >= vy { 1 } else { 0 },
                ),
                Ok(()),
            )
        },
        Instruction::ShiftRight { x } => {
            let flagged = m.with_register(15, m.reg(x) % 2);
            (flagged.with_register(x, flagged.reg(x) / 2), Ok(()))
        },
        Instruction::SubtractReversed { x, y } => {
            let (vx, vy) = (m.reg(x), m.reg(y));
            (
                m.with_register(x, ((vy - vx + 256) % 256) as u8).with_register(
                    15,
                    if vy >= vx { 1 } else { 0 },
                ),
                Ok(()),
            )
        },
        Instruction::ShiftLeft { x } => {
            let flagged = m.with_register(15, m.reg(x) / 128);
            (flagged.with_register(x, ((flagged.reg(x) * 2) % 256) as u8), Ok(()))
        },
        Instruction::SkipIfNotEqual { x, y } => (m.skip_when(m.reg(x) != m.reg(y)), Ok(())),
        Instruction::SetIndex { nnn } => (Machine { i_register: nnn, ..m }, Ok(())),
        Instruction::JumpOffset { nnn } => (m.with_pc(m.reg(0) + nnn), Ok(())),
        Instruction::Random { x, kk } => (m.with_register(x, random & kk), Ok(())),
        Instruction::Draw { x, y, n } => (
            Machine {
                video: drawn_video(m, x, y, n),
                registers: m.registers.update(15, if draw_collides(m, x, y, n) { 1 } else { 0 }),
                ..m
            },
            Ok(()),
        ),
        Instruction::SkipIfKey { x } => (m.skip_when(m.keypad[m.reg(x) as int]), Ok(())),
        Instruction::SkipIfNotKey { x } => (m.skip_when(!m.keypad[m.reg(x) as int]), Ok(())),
        Instruction::LoadDelay { x } => (m.with_register(x, m.delay_timer), Ok(())),
        Instruction::WaitKey { x } => match m.current_key_press {
            Some(key) => (
                Machine {
                    is_waiting_for_key: false,
                    current_key_press: None,
                    ..m.with_register(x, key)
                },
                Ok(()),
            ),
            None => (
                Machine { is_waiting_for_key: true, ..m.with_pc(m.program_counter - 2) },
                Ok(()),
            ),
        },
        Instruction::SetDelay { x } => (Machine { delay_timer: m.reg(x), ..m }, Ok(())),
        Instruction::SetSound { x } => (Machine { sound_timer: m.reg(x), ..m }, Ok(())),
        Instruction::AddIndex { x } => (
            Machine { i_register: (m.i_register + m.reg(x)) as usize, ..m },
            Ok(()),
        ),
        Instruction::FontCharacter { x } => (
            Machine { i_register: (FONTSET_START_ADDR + 5 * m.reg(x)) as usize, ..m },
            Ok(()),
        ),
        Instruction::StoreBcd { x } => (Machine { memory: bcd_memory(m, x), ..m }, Ok(())),
        Instruction::StoreRegisters { x } => (
            Machine { memory: stored_registers(m, x), ..m },
            Ok(()),
        ),
        Instruction::LoadRegisters { x } => (
            Machine { registers: loaded_registers(m, x), ..m },
            Ok(()),
        ),
        Instruction::Unknown { nibbles } => (
            m,
            Err(FdeError::UnknownInstruction { _nibbles: nibbles }),
        ),
    }
}

/// The machine after the opcode at the program counter has been fetched: the
/// program counter has moved past it.
pub open spec fn fetched(m: Machine) -> Machine {
    m.with_pc(m.program_counter + 2)
}

/// The opcode bytes at the program counter decoded into an instruction.
pub open spec fn current_instruction(m: Machine) -> Instruction {
    decode(m.memory[m.program_counter as int], m.memory[m.program_counter + 1])
}

/// Whether the program counter leaves room for no two-byte opcode.
pub open spec fn pc_out_of_memory(m: Machine) -> bool {
    m.program_counter + 1 >= MEM_SIZE
}

/// The machine after one fetch-decode-execute cycle, its outcome recorded in
/// `last_cycle_result`. `random` is the byte that `Cxkk` would draw.
pub open spec fn cycle(m: Machine, random: u8) -> Machine {
    if pc_out_of_memory(m) {
        Machine { last_cycle_result: Err(FdeError::StackOverflow), ..m }
    } else {
        let (next, outcome) = execute(fetched(m), current_instruction(m), random);
        Machine { last_cycle_result: outcome, ..next }
    }
}

/// Whether one cycle on `m` stays within what the interpreter can do.
pub open spec fn cycle_executable(m: Machine) -> bool {
    &&& m.program_counter < usize::MAX
    &&& !pc_out_of_memory(m) ==> executable(fetched(m), current_instruction(m))
}

} // verus!
